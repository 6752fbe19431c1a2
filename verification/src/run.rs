//! Decisions of a check-in run.  The runner answers with one result per
//! account it processed, identified by the account's display name; results
//! are matched back to the configured accounts in configuration order.
use vstd::prelude::*;
use crate::text::{views, str_eq};

verus! {

/// Position of the last result named `n` (a later result of the same name
/// replaces an earlier one).
pub open spec fn last_named(results: Seq<Seq<char>>, n: Seq<char>) -> Option<int>
    decreases results.len(),
{
    if results.len() == 0 {
        None
    } else if results.last() == n {
        Some(results.len() - 1)
    } else {
        last_named(results.drop_last(), n)
    }
}

/// The result that the account at position `i` takes: the last result of
/// its name, unless an earlier account of the same name has taken it.
pub open spec fn taken_result(names: Seq<Seq<char>>, results: Seq<Seq<char>>, i: int) -> Option<int> {
    if exists|j: int| 0 <= j < i && names[j] == names[i] {
        None
    } else {
        last_named(results, names[i])
    }
}

proof fn lemma_last_named_at(results: Seq<Seq<char>>, n: Seq<char>, k: int)
    requires
        -1 <= k < results.len(),
        forall|j: int| k < j < results.len() ==> #[trigger] results[j] != n,
        k >= 0 ==> results[k] == n,
    ensures
        last_named(results, n) == if k >= 0 {
            Some(k)
        } else {
            None::<int>
        },
    decreases results.len(),
{
    if results.len() > 0 && k < results.len() - 1 {
        assert(results[results.len() - 1] != n);
        let d = results.drop_last();
        assert forall|j: int| k < j < d.len() implies #[trigger] d[j] != n by {
            assert(d[j] == results[j]);
        }
        if k >= 0 {
            assert(d[k] == results[k]);
        }
        lemma_last_named_at(d, n, k);
    }
}

/// For each configured account, in order, the position of the result it
/// takes: the last result bearing the account's display name, unless an
/// earlier account with the same name already took it (`None` then, as
/// when no result bears the name).
pub fn match_results_by_name(account_names: &Vec<String>, result_names: &Vec<String>) -> (r: Vec<Option<usize>>)
    ensures
        r@.len() == account_names@.len(),
        forall|i: int| 0 <= i < r@.len() ==> match #[trigger] r@[i] {
            Some(k) => taken_result(views(account_names@), views(result_names@), i) == Some(k as int),
            None => taken_result(views(account_names@), views(result_names@), i) is None,
        },
{
    let ghost names = views(account_names@);
    let ghost results = views(result_names@);
    let mut r: Vec<Option<usize>> = Vec::new();
    let mut i: usize = 0;
    while i < account_names.len()
        invariant
            i <= account_names@.len(),
            names == views(account_names@),
            results == views(result_names@),
            r@.len() == i,
            forall|x: int| 0 <= x < i ==> match #[trigger] r@[x] {
                Some(k) => taken_result(names, results, x) == Some(k as int),
                None => taken_result(names, results, x) is None,
            },
        decreases account_names.len() - i,
    {
        let name = account_names[i].as_str();
        assert(names.len() == account_names@.len());
        assert(forall|y: int| 0 <= y < names.len() ==> #[trigger] names[y] == account_names@[y]@);
        assert(results.len() == result_names@.len());
        assert(forall|y: int| 0 <= y < results.len() ==> #[trigger] results[y] == result_names@[y]@);
        let mut j: usize = 0;
        let mut seen = false;
        while j < i
            invariant
                j <= i < account_names@.len(),
                names == views(account_names@),
                names.len() == account_names@.len(),
                forall|y: int| 0 <= y < names.len() ==> #[trigger] names[y] == account_names@[y]@,
                name@ == names[i as int],
                !seen ==> forall|y: int| 0 <= y < j ==> names[y] != names[i as int],
                seen ==> exists|y: int| 0 <= y < i && names[y] == names[i as int],
            decreases i - j,
        {
            if !seen && str_eq(account_names[j].as_str(), name) {
                assert(names[j as int] == names[i as int]);
                seen = true;
            }
            j = j + 1;
        }
        if seen {
            r.push(None);
        } else {
            let mut k: usize = result_names.len();
            let mut found: Option<usize> = None;
            while k > 0 && found.is_none()
                invariant
                    k <= result_names@.len(),
                    results == views(result_names@),
                    names == views(account_names@),
                    i < account_names@.len(),
                    names.len() == account_names@.len(),
                    forall|y: int| 0 <= y < names.len() ==> #[trigger] names[y] == account_names@[y]@,
                    results.len() == result_names@.len(),
                    forall|y: int| 0 <= y < results.len() ==> #[trigger] results[y] == result_names@[y]@,
                    name@ == names[i as int],
                    found is None ==> forall|y: int| k <= y < results.len() ==> #[trigger] results[y] != names[i as int],
                    found matches Some(f) ==> f < results.len() && results[f as int] == names[i as int] && forall|y: int|
                        f < y < results.len() ==> #[trigger] results[y] != names[i as int],
                decreases k,
            {
                k = k - 1;
                if str_eq(result_names[k].as_str(), name) {
                    found = Some(k);
                }
            }
            proof {
                match found {
                    Some(f) => lemma_last_named_at(results, names[i as int], f as int),
                    None => lemma_last_named_at(results, names[i as int], -1),
                }
            }
            r.push(found);
        }
        i = i + 1;
    }
    r
}

/// The process status at the end of a run: success when at least one
/// account checked in.
pub fn exit_status(success_count: usize) -> (r: i32)
    ensures
        r == if success_count > 0 {
            0i32
        } else {
            1i32
        },
{
    if success_count > 0 {
        0
    } else {
        1
    }
}

} // verus!
