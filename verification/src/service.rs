//! Which accounts a check-in request covers, and when the cookies a run
//! returns renew an account's stored ones.
use vstd::prelude::*;
use crate::storage::{Account, Site};
use crate::text::str_eq;

verus! {

/// The accounts a check-in covers: all of them, those of one site, or one account.
#[derive(Debug, Clone, Copy, PartialEq, Eq, Structural)]
pub enum CheckinScope {
    All,
    Site(i64),
    Account(i64),
}

/// Whether an account with this id and site falls within the scope.
pub open spec fn in_scope(scope: CheckinScope, account_id: i64, site_id: i64) -> bool {
    match scope {
        CheckinScope::All => true,
        CheckinScope::Site(sid) => site_id == sid,
        CheckinScope::Account(aid) => account_id == aid,
    }
}

/// Whether some site has the given id.
pub open spec fn has_site(sites: Seq<Site>, site_id: i64) -> bool {
    exists|i: int| 0 <= i < sites.len() && (#[trigger] sites[i]).id == site_id
}

/// An account takes part in a run of the scope: it is in the scope and its site is known.
pub open spec fn dispatched(scope: CheckinScope, sites: Seq<Site>, a: Account) -> bool {
    in_scope(scope, a.id, a.site_id) && has_site(sites, a.site_id)
}

fn site_known(sites: &Vec<Site>, site_id: i64) -> (r: bool)
    ensures
        r == has_site(sites@, site_id),
{
    let mut i: usize = 0;
    while i < sites.len()
        invariant
            i <= sites@.len(),
            forall|j: int| 0 <= j < i ==> (#[trigger] sites@[j]).id != site_id,
        decreases sites.len() - i,
    {
        if sites[i].id == site_id {
            return true;
        }
        i = i + 1;
    }
    false
}

impl CheckinScope {
    /// Whether the account takes part in a check-in of this scope.
    pub fn includes(&self, account: &Account) -> (r: bool)
        ensures
            r == in_scope(*self, account.id, account.site_id),
    {
        match self {
            CheckinScope::All => true,
            CheckinScope::Site(sid) => account.site_id == *sid,
            CheckinScope::Account(aid) => account.id == *aid,
        }
    }

    /// The ids of the accounts that a run of this scope dispatches, in
    /// order: those within the scope whose site is known.
    pub fn select(&self, sites: &Vec<Site>, accounts: &Vec<Account>) -> (r: Vec<i64>)
        ensures
            r@ == accounts@.filter(|a: Account| dispatched(*self, sites@, a)).map_values(|a: Account| a.id),
    {
        let mut r: Vec<i64> = Vec::new();
        let mut i: usize = 0;
        while i < accounts.len()
            invariant
                i <= accounts@.len(),
                r@ == accounts@.take(i as int).filter(|a: Account| dispatched(*self, sites@, a)).map_values(
                    |a: Account| a.id,
                ),
            decreases accounts.len() - i,
        {
            let ghost t = accounts@.take(i + 1);
            assert(t.drop_last() =~= accounts@.take(i as int));
            assert(t.last() == accounts@[i as int]);
            proof {
                reveal(Seq::filter);
            }
            if self.includes(&accounts[i]) && site_known(sites, accounts[i].site_id) {
                r.push(accounts[i].id);
            }
            assert(r@ =~= t.filter(|a: Account| dispatched(*self, sites@, a)).map_values(|a: Account| a.id));
            i = i + 1;
        }
        assert(accounts@.take(accounts@.len() as int) =~= accounts@);
        r
    }
}


/// The position of the first returned cookie named `session`, if any.
pub open spec fn session_index(cookies: Seq<(String, String)>) -> Option<int>
    decreases cookies.len(),
{
    if cookies.len() == 0 {
        None
    } else if cookies[0].0@ == "session"@ {
        Some(0)
    } else {
        match session_index(cookies.drop_first()) {
            Some(i) => Some(i + 1),
            None => None,
        }
    }
}

/// Whether the cookies a run returned (name and value) renew an account's
/// stored ones, and which returned cookie is the session: only when a
/// `session` cookie came back, and, unless `force` (a login), only when its
/// value differs from the stored session's.
pub open spec fn renewal_spec(cookies: Seq<(String, String)>, stored_session: Option<Seq<char>>, force: bool) -> Option<int> {
    match session_index(cookies) {
        None => None,
        Some(i) => if !force && stored_session == Some(cookies[i].1@) {
            None
        } else {
            Some(i)
        },
    }
}

proof fn lemma_session_index_bounds(cookies: Seq<(String, String)>)
    ensures
        session_index(cookies) matches Some(i) ==> 0 <= i < cookies.len() && cookies[i].0@ == "session"@,
    decreases cookies.len(),
{
    if cookies.len() > 0 && cookies[0].0@ != "session"@ {
        lemma_session_index_bounds(cookies.drop_first());
        if let Some(i) = session_index(cookies.drop_first()) {
            assert(cookies.drop_first()[i] == cookies[i + 1]);
        }
    }
}

/// The position of the session cookie whose value is to be stored (its
/// expiry becomes the stored cookies' expiry), or none (see `renewal_spec`).
pub fn cookie_renewal(cookies: &Vec<(String, String)>, stored_session: Option<String>, force: bool) -> (r: Option<usize>)
    ensures
        match r {
            Some(i) => renewal_spec(cookies@, crate::config::opt_text(stored_session), force) == Some(i as int),
            None => renewal_spec(cookies@, crate::config::opt_text(stored_session), force) is None,
        },
        r matches Some(i) ==> i < cookies@.len() && cookies@[i as int].0@ == "session"@,
{
    let mut i: usize = 0;
    proof {
        assert(cookies@.skip(0) =~= cookies@);
    }
    while i < cookies.len()
        invariant
            i <= cookies@.len(),
            forall|k: int| 0 <= k < i ==> cookies@[k].0@ != "session"@,
            session_index(cookies@) == match session_index(cookies@.skip(i as int)) {
                Some(j) => Some(j + i),
                None => None::<int>,
            },
        decreases cookies.len() - i,
    {
        assert(cookies@.skip(i as int)[0] == cookies@[i as int]);
        if str_eq(cookies[i].0.as_str(), "session") {
            let keep = match &stored_session {
                Some(old) => force || !str_eq(old.as_str(), cookies[i].1.as_str()),
                None => true,
            };
            proof {
                lemma_session_index_bounds(cookies@);
            }
            return if keep { Some(i) } else { None };
        }
        assert(cookies@.skip(i as int).drop_first() =~= cookies@.skip(i + 1));
        i = i + 1;
    }
    None
}

} // verus!
