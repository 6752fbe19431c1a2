//! Merging of the records read from several sources.
//!
//! Sources are given from lowest to highest priority.  Sites are
//! de-duplicated by name and accounts by (site name, api_user); for each key
//! the record read last wins, and the result lists the keys in ascending
//! order.  E-mail settings are overlaid field by field.
use vstd::prelude::*;
use crate::text::{seq_lt, str_lt, str_eq, lemma_seq_lt_irreflexive, lemma_seq_lt_transitive, lemma_seq_lt_total};
use crate::config_loader::types::{RawSite, RawAccount, RawEmail, RawConfig, overlay_spec, copy_opt};
use crate::models::{Site, Account, SiteInput, AccountInput};

verus! {

/// `lt` is a strict total order.
pub open spec fn strict_total_order<K>(lt: spec_fn(K, K) -> bool) -> bool {
    &&& forall|a: K| !#[trigger] lt(a, a)
    &&& forall|a: K, b: K, c: K| #[trigger] lt(a, b) && #[trigger] lt(b, c) ==> lt(a, c)
    &&& forall|a: K, b: K| a == b || #[trigger] lt(a, b) || lt(b, a)
}

/// The keys of `s` ascend strictly.
pub open spec fn sorted_by<T, K>(s: Seq<T>, key: spec_fn(T) -> K, lt: spec_fn(K, K) -> bool) -> bool {
    forall|i: int, j: int| 0 <= i < j < s.len() ==> lt(key(#[trigger] s[i]), key(#[trigger] s[j]))
}

/// No record after position `j` of `flat` has the key of `flat[j]`.
pub open spec fn is_last<T, K>(flat: Seq<T>, j: int, key: spec_fn(T) -> K) -> bool {
    forall|k: int| j < k < flat.len() ==> key(#[trigger] flat[k]) != key(flat[j])
}

/// `r` occurs in `flat` at a position after which its key does not occur again.
pub open spec fn is_last_of<T, K>(r: T, flat: Seq<T>, key: spec_fn(T) -> K) -> bool {
    exists|j: int| 0 <= j < flat.len() && #[trigger] flat[j] == r && is_last(flat, j, key)
}

/// Some record of `out` has key `k`.
pub open spec fn has_key<T, K>(out: Seq<T>, k: K, key: spec_fn(T) -> K) -> bool {
    exists|i: int| 0 <= i < out.len() && key(#[trigger] out[i]) == k
}

/// `out` is `flat` de-duplicated by key, keeping for each key the record
/// that comes last, listed by ascending key.
pub open spec fn dedup_last<T, K>(out: Seq<T>, flat: Seq<T>, key: spec_fn(T) -> K, lt: spec_fn(K, K) -> bool) -> bool {
    &&& sorted_by(out, key, lt)
    &&& forall|i: int| 0 <= i < out.len() ==> is_last_of(#[trigger] out[i], flat, key)
    &&& forall|j: int| 0 <= j < flat.len() ==> has_key(out, key(#[trigger] flat[j]), key)
}

/// The key of a site: its name.
pub open spec fn site_key() -> spec_fn(RawSite) -> Seq<char> {
    |s: RawSite| s.name@
}

/// The key of an account: (site name, api_user).
pub open spec fn account_key() -> spec_fn(RawAccount) -> (Seq<char>, Seq<char>) {
    |a: RawAccount| (a.site_name@, a.api_user@)
}

/// The order of `str`.
pub open spec fn text_order() -> spec_fn(Seq<char>, Seq<char>) -> bool {
    |a: Seq<char>, b: Seq<char>| seq_lt(a, b)
}

/// The order of `(String, String)`: by the first component, then the second.
pub open spec fn pair_order() -> spec_fn((Seq<char>, Seq<char>), (Seq<char>, Seq<char>)) -> bool {
    |a: (Seq<char>, Seq<char>), b: (Seq<char>, Seq<char>)| seq_lt(a.0, b.0) || (a.0 == b.0 && seq_lt(a.1, b.1))
}

/// All sites of `cs`, source after source.
pub open spec fn flat_sites(cs: Seq<RawConfig>) -> Seq<RawSite>
    decreases cs.len(),
{
    if cs.len() == 0 {
        Seq::empty()
    } else {
        flat_sites(cs.drop_last()) + cs.last().sites@
    }
}

/// All accounts of `cs`, source after source.
pub open spec fn flat_accounts(cs: Seq<RawConfig>) -> Seq<RawAccount>
    decreases cs.len(),
{
    if cs.len() == 0 {
        Seq::empty()
    } else {
        flat_accounts(cs.drop_last()) + cs.last().accounts@
    }
}

/// One step of the e-mail merge.
pub open spec fn email_step(acc: Option<RawEmail>, next: Option<RawEmail>) -> Option<RawEmail> {
    match next {
        Some(e) => match acc {
            Some(existing) => Some(overlay_spec(existing, e)),
            None => Some(e),
        },
        None => acc,
    }
}

/// The merged e-mail settings of `cs`.
pub open spec fn merged_email(cs: Seq<RawConfig>) -> Option<RawEmail>
    decreases cs.len(),
{
    if cs.len() == 0 {
        None
    } else {
        email_step(merged_email(cs.drop_last()), cs.last().email)
    }
}

pub proof fn lemma_text_order_total()
    ensures
        strict_total_order(text_order()),
{
    assert forall|a: Seq<char>| !#[trigger] text_order()(a, a) by {
        lemma_seq_lt_irreflexive(a);
    }
    assert forall|a: Seq<char>, b: Seq<char>, c: Seq<char>|
        #[trigger] text_order()(a, b) && #[trigger] text_order()(b, c) implies text_order()(a, c) by {
        lemma_seq_lt_transitive(a, b, c);
    }
    assert forall|a: Seq<char>, b: Seq<char>| a == b || #[trigger] text_order()(a, b) || text_order()(b, a) by {
        lemma_seq_lt_total(a, b);
    }
}

pub proof fn lemma_pair_order_total()
    ensures
        strict_total_order(pair_order()),
{
    let lt = pair_order();
    assert forall|a: (Seq<char>, Seq<char>)| !#[trigger] lt(a, a) by {
        lemma_seq_lt_irreflexive(a.0);
        lemma_seq_lt_irreflexive(a.1);
    }
    assert forall|a: (Seq<char>, Seq<char>), b: (Seq<char>, Seq<char>), c: (Seq<char>, Seq<char>)|
        #[trigger] lt(a, b) && #[trigger] lt(b, c) implies lt(a, c) by {
        if seq_lt(a.0, b.0) && seq_lt(b.0, c.0) {
            lemma_seq_lt_transitive(a.0, b.0, c.0);
        }
        if a.0 == b.0 && b.0 == c.0 && seq_lt(a.1, b.1) && seq_lt(b.1, c.1) {
            lemma_seq_lt_transitive(a.1, b.1, c.1);
        }
    }
    assert forall|a: (Seq<char>, Seq<char>), b: (Seq<char>, Seq<char>)| a == b || #[trigger] lt(a, b) || lt(b, a) by {
        lemma_seq_lt_total(a.0, b.0);
        lemma_seq_lt_total(a.1, b.1);
    }
}

/// The preconditions shared by the steps of `lemma_upsert`.
pub open spec fn upsert_pre<T, K>(
    v: Seq<T>,
    flat: Seq<T>,
    x: T,
    p: int,
    replace: bool,
    key: spec_fn(T) -> K,
    lt: spec_fn(K, K) -> bool,
) -> bool {
    &&& strict_total_order(lt)
    &&& dedup_last(v, flat, key, lt)
    &&& 0 <= p <= v.len()
    &&& forall|i: int| 0 <= i < p ==> lt(key(#[trigger] v[i]), key(x))
    &&& replace ==> p < v.len() && key(v[p]) == key(x)
    &&& !replace && p < v.len() ==> lt(key(x), key(v[p]))
}

proof fn lemma_upsert_distinct<T, K>(v: Seq<T>, flat: Seq<T>, x: T, p: int, replace: bool, key: spec_fn(T) -> K, lt: spec_fn(K, K) -> bool)
    requires
        upsert_pre(v, flat, x, p, replace, key, lt),
    ensures
        forall|i: int| 0 <= i < v.len() && !(replace && i == p) ==> key(#[trigger] v[i]) != key(x),
{
    assert forall|i: int| 0 <= i < v.len() && !(replace && i == p) implies key(#[trigger] v[i]) != key(x) by {
        if i < p {
            assert(lt(key(v[i]), key(x)));
        } else if replace {
            assert(lt(key(v[p]), key(v[i])));
        } else if i == p {
            assert(lt(key(x), key(v[p])));
        } else {
            assert(lt(key(v[p]), key(v[i])));
            assert(lt(key(x), key(v[p])));
            assert(lt(key(x), key(v[i])));
        }
    }
}

proof fn lemma_upsert_sorted<T, K>(v: Seq<T>, flat: Seq<T>, x: T, p: int, replace: bool, key: spec_fn(T) -> K, lt: spec_fn(K, K) -> bool, w: Seq<T>)
    requires
        upsert_pre(v, flat, x, p, replace, key, lt),
        w == (if replace { v.update(p, x) } else { v.insert(p, x) }),
    ensures
        sorted_by(w, key, lt),
{
    assert forall|i: int, j: int| 0 <= i < j < w.len() implies lt(key(#[trigger] w[i]), key(#[trigger] w[j])) by {
        if replace {
            if i == p {
                assert(lt(key(v[p]), key(v[j])));
            } else if j == p {
                assert(lt(key(v[i]), key(v[p])));
            } else {
                assert(lt(key(v[i]), key(v[j])));
            }
        } else {
            if j < p {
                assert(lt(key(v[i]), key(v[j])));
            } else if j == p {
                assert(w[i] == v[i]);
            } else if i == p {
                assert(w[j] == v[j - 1]);
                if j - 1 > p {
                    assert(lt(key(v[p]), key(v[j - 1])));
                    assert(lt(key(x), key(v[p])));
                }
            } else if i < p {
                assert(w[i] == v[i]);
                assert(w[j] == v[j - 1]);
                assert(lt(key(v[i]), key(v[j - 1])));
            } else {
                assert(w[i] == v[i - 1]);
                assert(w[j] == v[j - 1]);
                assert(lt(key(v[i - 1]), key(v[j - 1])));
            }
        }
    }
}

proof fn lemma_upsert_last<T, K>(v: Seq<T>, flat: Seq<T>, x: T, p: int, replace: bool, key: spec_fn(T) -> K, lt: spec_fn(K, K) -> bool, w: Seq<T>)
    requires
        upsert_pre(v, flat, x, p, replace, key, lt),
        w == (if replace { v.update(p, x) } else { v.insert(p, x) }),
    ensures
        forall|i: int| 0 <= i < w.len() ==> is_last_of(#[trigger] w[i], flat.push(x), key),
{
    let f = flat.push(x);
    lemma_upsert_distinct(v, flat, x, p, replace, key, lt);
    assert forall|i: int| 0 <= i < w.len() implies is_last_of(#[trigger] w[i], f, key) by {
        let fl = flat.len() as int;
        if i == p {
            assert(w[i] == x);
            assert(f[fl] == x);
            assert(is_last(f, fl, key));
        } else {
            let iv = if !replace && i > p { i - 1 } else { i };
            assert(w[i] == v[iv]);
            assert(is_last_of(v[iv], flat, key));
            let j = choose|j: int| 0 <= j < flat.len() && #[trigger] flat[j] == v[iv] && is_last(flat, j, key);
            assert(key(v[iv]) != key(x));
            assert(f[j] == flat[j]);
            assert forall|k: int| j < k < f.len() implies key(#[trigger] f[k]) != key(f[j]) by {
                if k < fl {
                    assert(f[k] == flat[k]);
                } else {
                    assert(f[k] == x);
                }
            }
        }
    }
}

proof fn lemma_upsert_cover<T, K>(v: Seq<T>, flat: Seq<T>, x: T, p: int, replace: bool, key: spec_fn(T) -> K, lt: spec_fn(K, K) -> bool, w: Seq<T>)
    requires
        upsert_pre(v, flat, x, p, replace, key, lt),
        w == (if replace { v.update(p, x) } else { v.insert(p, x) }),
    ensures
        forall|j: int| 0 <= j < flat.len() + 1 ==> has_key(w, key(#[trigger] flat.push(x)[j]), key),
{
    let f = flat.push(x);
    assert forall|j: int| 0 <= j < f.len() implies has_key(w, key(#[trigger] f[j]), key) by {
        if j == flat.len() {
            assert(f[j] == x);
            assert(w[p] == x);
        } else {
            assert(f[j] == flat[j]);
            assert(has_key(v, key(flat[j]), key));
            let i = choose|i: int| 0 <= i < v.len() && key(#[trigger] v[i]) == key(flat[j]);
            if replace {
                if i == p {
                    assert(w[p] == x);
                } else {
                    assert(w[i] == v[i]);
                }
            } else if i < p {
                assert(w[i] == v[i]);
            } else {
                assert(w[i + 1] == v[i]);
            }
        }
    }
}

/// Inserting or replacing one record at its sorted position keeps the
/// de-duplication invariant, now over the records read so far plus `x`.
pub proof fn lemma_upsert<T, K>(
    v: Seq<T>,
    flat: Seq<T>,
    x: T,
    p: int,
    replace: bool,
    key: spec_fn(T) -> K,
    lt: spec_fn(K, K) -> bool,
)
    requires
        upsert_pre(v, flat, x, p, replace, key, lt),
    ensures
        dedup_last(if replace { v.update(p, x) } else { v.insert(p, x) }, flat.push(x), key, lt),
{
    let w = if replace { v.update(p, x) } else { v.insert(p, x) };
    lemma_upsert_sorted(v, flat, x, p, replace, key, lt, w);
    lemma_upsert_last(v, flat, x, p, replace, key, lt, w);
    lemma_upsert_cover(v, flat, x, p, replace, key, lt, w);
    let f = flat.push(x);
    assert forall|j: int| 0 <= j < f.len() implies has_key(w, key(#[trigger] f[j]), key) by {
        assert(has_key(w, key(flat.push(x)[j]), key));
    }
}

fn upsert_site(v: &mut Vec<RawSite>, x: RawSite, Ghost(flat): Ghost<Seq<RawSite>>)
    requires
        dedup_last(old(v)@, flat, site_key(), text_order()),
    ensures
        dedup_last(final(v)@, flat.push(x), site_key(), text_order()),
{
    proof {
        lemma_text_order_total();
    }
    let ghost key = site_key();
    let ghost lt = text_order();
    let mut p: usize = 0;
    while p < v.len() && str_lt(v[p].name.as_str(), x.name.as_str())
        invariant
            p <= v.len(),
            key == site_key(),
            lt == text_order(),
            forall|i: int| 0 <= i < p ==> lt(key(#[trigger] v@[i]), key(x)),
        decreases v.len() - p,
    {
        p = p + 1;
    }
    if p < v.len() && str_eq(v[p].name.as_str(), x.name.as_str()) {
        proof {
            lemma_upsert(v@, flat, x, p as int, true, key, lt);
        }
        v.set(p, x);
    } else {
        proof {
            if p < v.len() {
                assert(!lt(key(v@[p as int]), key(x)));
                assert(key(v@[p as int]) != key(x));
            }
            lemma_upsert(v@, flat, x, p as int, false, key, lt);
        }
        v.insert(p, x);
    }
}

fn account_lt(a: &RawAccount, b: &RawAccount) -> (r: bool)
    ensures
        r == pair_order()(account_key()(*a), account_key()(*b)),
{
    str_lt(a.site_name.as_str(), b.site_name.as_str())
        || (str_eq(a.site_name.as_str(), b.site_name.as_str()) && str_lt(a.api_user.as_str(), b.api_user.as_str()))
}

fn upsert_account(v: &mut Vec<RawAccount>, x: RawAccount, Ghost(flat): Ghost<Seq<RawAccount>>)
    requires
        dedup_last(old(v)@, flat, account_key(), pair_order()),
    ensures
        dedup_last(final(v)@, flat.push(x), account_key(), pair_order()),
{
    proof {
        lemma_pair_order_total();
    }
    let ghost key = account_key();
    let ghost lt = pair_order();
    let mut p: usize = 0;
    while p < v.len() && account_lt(&v[p], &x)
        invariant
            p <= v.len(),
            key == account_key(),
            lt == pair_order(),
            forall|i: int| 0 <= i < p ==> lt(key(#[trigger] v@[i]), key(x)),
        decreases v.len() - p,
    {
        p = p + 1;
    }
    if p < v.len() && str_eq(v[p].site_name.as_str(), x.site_name.as_str())
        && str_eq(v[p].api_user.as_str(), x.api_user.as_str()) {
        proof {
            lemma_upsert(v@, flat, x, p as int, true, key, lt);
        }
        v.set(p, x);
    } else {
        proof {
            if p < v.len() {
                assert(!lt(key(v@[p as int]), key(x)));
                assert(key(v@[p as int]) != key(x));
            }
            lemma_upsert(v@, flat, x, p as int, false, key, lt);
        }
        v.insert(p, x);
    }
}

proof fn lemma_flat_step(cs: Seq<RawConfig>, n: int)
    requires
        0 <= n < cs.len(),
    ensures
        flat_sites(cs.take(n + 1)) == flat_sites(cs.take(n)) + cs[n].sites@,
        flat_accounts(cs.take(n + 1)) == flat_accounts(cs.take(n)) + cs[n].accounts@,
        merged_email(cs.take(n + 1)) == email_step(merged_email(cs.take(n)), cs[n].email),
{
    assert(cs.take(n + 1).drop_last() =~= cs.take(n));
}

/// Merges the configurations of several sources, given from lowest to
/// highest priority.
pub fn merge_configs(configs: &[RawConfig]) -> (r: RawConfig)
    ensures
        dedup_last(r.sites@, flat_sites(configs@), site_key(), text_order()),
        dedup_last(r.accounts@, flat_accounts(configs@), account_key(), pair_order()),
        r.email == merged_email(configs@),
{
    let mut sites: Vec<RawSite> = Vec::new();
    let mut accounts: Vec<RawAccount> = Vec::new();
    let mut email: Option<RawEmail> = None;
    let n = configs.len();
    let mut c: usize = 0;
    assert(configs@.take(0) =~= Seq::<RawConfig>::empty());
    while c < n
        invariant
            n == configs@.len(),
            c <= n,
            dedup_last(sites@, flat_sites(configs@.take(c as int)), site_key(), text_order()),
            dedup_last(accounts@, flat_accounts(configs@.take(c as int)), account_key(), pair_order()),
            email == merged_email(configs@.take(c as int)),
        decreases n - c,
    {
        let cfg = &configs[c];
        let ghost base_sites = flat_sites(configs@.take(c as int));
        let ghost base_accounts = flat_accounts(configs@.take(c as int));
        let mut s: usize = 0;
        assert(cfg.sites@.take(0) =~= Seq::<RawSite>::empty());
        assert(base_sites + cfg.sites@.take(0) =~= base_sites);
        while s < cfg.sites.len()
            invariant
                s <= cfg.sites@.len(),
                dedup_last(sites@, base_sites + cfg.sites@.take(s as int), site_key(), text_order()),
            decreases cfg.sites@.len() - s,
        {
            let x = cfg.sites[s].copy();
            upsert_site(&mut sites, x, Ghost(base_sites + cfg.sites@.take(s as int)));
            assert(base_sites + cfg.sites@.take(s + 1) =~= (base_sites + cfg.sites@.take(s as int)).push(x));
            s = s + 1;
        }
        let mut a: usize = 0;
        assert(cfg.accounts@.take(0) =~= Seq::<RawAccount>::empty());
        assert(base_accounts + cfg.accounts@.take(0) =~= base_accounts);
        while a < cfg.accounts.len()
            invariant
                a <= cfg.accounts@.len(),
                dedup_last(accounts@, base_accounts + cfg.accounts@.take(a as int), account_key(), pair_order()),
            decreases cfg.accounts@.len() - a,
        {
            let x = cfg.accounts[a].copy();
            upsert_account(&mut accounts, x, Ghost(base_accounts + cfg.accounts@.take(a as int)));
            assert(base_accounts + cfg.accounts@.take(a + 1) =~= (base_accounts + cfg.accounts@.take(a as int)).push(x));
            a = a + 1;
        }
        match &cfg.email {
            Some(e) => {
                match &mut email {
                    Some(existing) => existing.overlay(e),
                    None => {
                        email = Some(e.copy());
                    },
                }
            },
            None => {},
        }
        proof {
            lemma_flat_step(configs@, c as int);
            assert(cfg.sites@.take(cfg.sites@.len() as int) =~= cfg.sites@);
            assert(cfg.accounts@.take(cfg.accounts@.len() as int) =~= cfg.accounts@);
        }
        c = c + 1;
    }
    assert(configs@.take(n as int) =~= configs@);
    RawConfig { sites, accounts, email }
}

// ---------------------------------------------------------------------------
// Write-back of a merged configuration into the database
// ---------------------------------------------------------------------------

/// The database input of a merged site.
pub open spec fn site_input_of(s: RawSite) -> SiteInput {
    SiteInput {
        name: s.name,
        domain: s.domain,
        login_path: s.login_path,
        sign_in_path: s.sign_in_path,
        user_info_path: s.user_info_path,
        tokens_path: s.tokens_path,
        logs_path: s.logs_path,
        chart_path: s.chart_path,
        api_user_key: s.api_user_key,
    }
}

/// Some stored site bears the name.
pub open spec fn site_named(existing: Seq<Site>, name: Seq<char>) -> bool {
    exists|i: int| 0 <= i < existing.len() && (#[trigger] existing[i]).name@ == name
}

/// The merged sites that the database lacks (by name), in order.
pub open spec fn sites_to_insert_spec(existing: Seq<Site>, merged: Seq<RawSite>) -> Seq<SiteInput>
    decreases merged.len(),
{
    if merged.len() == 0 {
        Seq::empty()
    } else {
        let prev = sites_to_insert_spec(existing, merged.drop_last());
        if site_named(existing, merged.last().name@) {
            prev
        } else {
            prev.push(site_input_of(merged.last()))
        }
    }
}

/// Position of the first stored site with the name (the count when none).
pub open spec fn first_site_named(sites: Seq<Site>, name: Seq<char>) -> int
    decreases sites.len(),
{
    if sites.len() == 0 {
        0
    } else if sites[0].name@ == name {
        0
    } else {
        1 + first_site_named(sites.drop_first(), name)
    }
}

/// The database input of a merged account under a site.
pub open spec fn account_input_of(site_id: i64, a: RawAccount) -> AccountInput {
    AccountInput {
        site_id,
        name: match a.display_name {
            Some(n) => n,
            None => a.api_user,
        },
        api_user: a.api_user,
        username: a.username,
        password: a.password,
        cookies: a.cookies,
    }
}

/// The site already holds (stored or planned) an account with the api_user.
pub open spec fn account_known(existing: Seq<Account>, planned: Seq<AccountInput>, site_id: i64, api_user: Seq<char>) -> bool {
    (exists|i: int| 0 <= i < existing.len() && (#[trigger] existing[i]).site_id == site_id && existing[i].api_user@ == api_user)
    || (exists|i: int| 0 <= i < planned.len() && (#[trigger] planned[i]).site_id == site_id && planned[i].api_user@ == api_user)
}

/// The accounts to insert, in order: each merged account goes under the
/// first stored site of its site name (skipped when there is none), unless
/// that site already holds an account with its api_user.
pub open spec fn accounts_to_insert_spec(sites: Seq<Site>, existing: Seq<Account>, merged: Seq<RawAccount>) -> Seq<AccountInput>
    decreases merged.len(),
{
    if merged.len() == 0 {
        Seq::empty()
    } else {
        let prev = accounts_to_insert_spec(sites, existing, merged.drop_last());
        let a = merged.last();
        let i = first_site_named(sites, a.site_name@);
        if i >= sites.len() {
            prev
        } else if account_known(existing, prev, sites[i].id, a.api_user@) {
            prev
        } else {
            prev.push(account_input_of(sites[i].id, a))
        }
    }
}

proof fn lemma_first_site_named(sites: Seq<Site>, name: Seq<char>, i: int)
    requires
        0 <= i <= sites.len(),
        forall|j: int| 0 <= j < i ==> (#[trigger] sites[j]).name@ != name,
        i < sites.len() ==> sites[i].name@ == name,
    ensures
        first_site_named(sites, name) == i,
    decreases i,
{
    if i > 0 {
        assert(sites[0].name@ != name);
        assert forall|j: int| 0 <= j < i - 1 implies (#[trigger] sites.drop_first()[j]).name@ != name by {
            assert(sites.drop_first()[j] == sites[j + 1]);
        }
        if i < sites.len() {
            assert(sites.drop_first()[i - 1] == sites[i]);
        }
        lemma_first_site_named(sites.drop_first(), name, i - 1);
    }
}

proof fn lemma_first_site_named_props(sites: Seq<Site>, name: Seq<char>)
    ensures
        0 <= first_site_named(sites, name) <= sites.len(),
        first_site_named(sites, name) < sites.len() ==> sites[first_site_named(sites, name)].name@ == name,
        forall|j: int| 0 <= j < first_site_named(sites, name) ==> (#[trigger] sites[j]).name@ != name,
    decreases sites.len(),
{
    if sites.len() > 0 && sites[0].name@ != name {
        let d = sites.drop_first();
        lemma_first_site_named_props(d, name);
        assert forall|j: int| 0 <= j < first_site_named(sites, name) implies (#[trigger] sites[j]).name@ != name by {
            if j > 0 {
                assert(sites[j] == d[j - 1]);
            }
        }
        if first_site_named(sites, name) < sites.len() {
            assert(sites[first_site_named(sites, name)] == d[first_site_named(d, name)]);
        }
    }
}

fn find_site_named(sites: &Vec<Site>, name: &str) -> (r: usize)
    ensures
        r as int == first_site_named(sites@, name@),
        r <= sites@.len(),
{
    let mut i: usize = 0;
    while i < sites.len()
        invariant
            i <= sites@.len(),
            forall|j: int| 0 <= j < i ==> (#[trigger] sites@[j]).name@ != name@,
        decreases sites.len() - i,
    {
        if str_eq(sites[i].name.as_str(), name) {
            proof {
                lemma_first_site_named(sites@, name@, i as int);
            }
            return i;
        }
        i = i + 1;
    }
    proof {
        lemma_first_site_named(sites@, name@, i as int);
    }
    i
}

/// The merged sites that the database does not hold yet (matched by name),
/// as inputs to insert, in order.
pub fn sites_to_insert(existing: &Vec<Site>, merged: &RawConfig) -> (r: Vec<SiteInput>)
    ensures
        r@ == sites_to_insert_spec(existing@, merged.sites@),
{
    let mut r: Vec<SiteInput> = Vec::new();
    let mut k: usize = 0;
    while k < merged.sites.len()
        invariant
            k <= merged.sites@.len(),
            r@ == sites_to_insert_spec(existing@, merged.sites@.take(k as int)),
        decreases merged.sites.len() - k,
    {
        let s = &merged.sites[k];
        let ghost t = merged.sites@.take(k + 1);
        assert(t.drop_last() =~= merged.sites@.take(k as int));
        assert(t.last() == *s);
        let i = find_site_named(existing, s.name.as_str());
        proof {
            lemma_first_site_named_props(existing@, s.name@);
            if site_named(existing@, s.name@) {
                let j = choose|j: int| 0 <= j < existing@.len() && (#[trigger] existing@[j]).name@ == s.name@;
                assert(first_site_named(existing@, s.name@) <= j);
            }
        }
        if i >= existing.len() {
            let input = SiteInput {
                name: s.name.clone(),
                domain: s.domain.clone(),
                login_path: s.login_path.clone(),
                sign_in_path: copy_opt(&s.sign_in_path),
                user_info_path: s.user_info_path.clone(),
                tokens_path: s.tokens_path.clone(),
                logs_path: s.logs_path.clone(),
                chart_path: s.chart_path.clone(),
                api_user_key: s.api_user_key.clone(),
            };
            r.push(input);
        } else {
            assert(existing@[i as int].name@ == s.name@);
        }
        k = k + 1;
    }
    assert(merged.sites@.take(merged.sites@.len() as int) =~= merged.sites@);
    r
}

fn account_known_exec(existing: &Vec<Account>, planned: &Vec<AccountInput>, site_id: i64, api_user: &str) -> (r: bool)
    ensures
        r == account_known(existing@, planned@, site_id, api_user@),
{
    let mut i: usize = 0;
    while i < existing.len()
        invariant
            i <= existing@.len(),
            forall|j: int| 0 <= j < i ==> !((#[trigger] existing@[j]).site_id == site_id && existing@[j].api_user@ == api_user@),
        decreases existing.len() - i,
    {
        if existing[i].site_id == site_id && str_eq(existing[i].api_user.as_str(), api_user) {
            return true;
        }
        i = i + 1;
    }
    let mut j: usize = 0;
    while j < planned.len()
        invariant
            j <= planned@.len(),
            forall|x: int| 0 <= x < existing@.len() ==> !((#[trigger] existing@[x]).site_id == site_id && existing@[x].api_user@ == api_user@),
            forall|x: int| 0 <= x < j ==> !((#[trigger] planned@[x]).site_id == site_id && planned@[x].api_user@ == api_user@),
        decreases planned.len() - j,
    {
        if planned[j].site_id == site_id && str_eq(planned[j].api_user.as_str(), api_user) {
            return true;
        }
        j = j + 1;
    }
    false
}

/// The merged accounts that the database does not hold yet, as inputs to
/// insert, in order: each goes under the first stored site of its site name
/// (accounts of unknown sites are skipped) unless that site already holds,
/// or is about to receive, an account with its api_user.  A new account is
/// named by its display name, else by its api_user.
pub fn accounts_to_insert(sites: &Vec<Site>, existing: &Vec<Account>, merged: &RawConfig) -> (r: Vec<AccountInput>)
    ensures
        r@ == accounts_to_insert_spec(sites@, existing@, merged.accounts@),
{
    let mut r: Vec<AccountInput> = Vec::new();
    let mut k: usize = 0;
    while k < merged.accounts.len()
        invariant
            k <= merged.accounts@.len(),
            r@ == accounts_to_insert_spec(sites@, existing@, merged.accounts@.take(k as int)),
        decreases merged.accounts.len() - k,
    {
        let a = &merged.accounts[k];
        let ghost t = merged.accounts@.take(k + 1);
        assert(t.drop_last() =~= merged.accounts@.take(k as int));
        assert(t.last() == *a);
        let i = find_site_named(sites, a.site_name.as_str());
        if i < sites.len() {
            let sid = sites[i].id;
            if !account_known_exec(existing, &r, sid, a.api_user.as_str()) {
                let name = match &a.display_name {
                    Some(n) => n.clone(),
                    None => a.api_user.clone(),
                };
                let input = AccountInput {
                    site_id: sid,
                    name,
                    api_user: a.api_user.clone(),
                    username: copy_opt(&a.username),
                    password: copy_opt(&a.password),
                    cookies: copy_opt(&a.cookies),
                };
                r.push(input);
            }
        }
        k = k + 1;
    }
    assert(merged.accounts@.take(merged.accounts@.len() as int) =~= merged.accounts@);
    r
}


/// `x` is what account `a` becomes when written back: the same api_user,
/// username, password and cookies, named by its display name (else its
/// api_user), under the id of a stored site that bears its site name.
pub open spec fn written_back_from(x: AccountInput, a: RawAccount, sites: Seq<Site>) -> bool {
    &&& x.api_user == a.api_user
    &&& x.username == a.username
    &&& x.password == a.password
    &&& x.cookies == a.cookies
    &&& x.name == (if a.display_name is Some { a.display_name->0 } else { a.api_user })
    &&& exists|s: int| 0 <= s < sites.len() && (#[trigger] sites[s]).id == x.site_id && sites[s].name@ == a.site_name@
}

/// Every planned account input is written back from one of the merged
/// accounts: its credentials (username, password, cookies) and api_user are
/// carried over unchanged, and it goes under a stored site of that
/// account's site name.
pub proof fn law_planned_accounts_carry_credentials(sites: Seq<Site>, existing: Seq<Account>, merged: Seq<RawAccount>, k: int)
    requires
        0 <= k < accounts_to_insert_spec(sites, existing, merged).len(),
    ensures
        exists|j: int| 0 <= j < merged.len()
            && written_back_from(accounts_to_insert_spec(sites, existing, merged)[k], #[trigger] merged[j], sites),
    decreases merged.len(),
{
    let plan = accounts_to_insert_spec(sites, existing, merged);
    let prev = accounts_to_insert_spec(sites, existing, merged.drop_last());
    let a = merged.last();
    let i = first_site_named(sites, a.site_name@);
    if k < prev.len() {
        law_planned_accounts_carry_credentials(sites, existing, merged.drop_last(), k);
        assert(plan[k] == prev[k]);
        let j = choose|j: int| 0 <= j < merged.drop_last().len()
            && written_back_from(prev[k], #[trigger] merged.drop_last()[j], sites);
        assert(merged.drop_last()[j] == merged[j]);
    } else {
        lemma_first_site_named_props(sites, a.site_name@);
        assert(i < sites.len());
        assert(plan[k] == account_input_of(sites[i].id, a));
        assert(sites[i].id == plan[k].site_id && sites[i].name@ == a.site_name@);
        assert(written_back_from(plan[k], merged[merged.len() - 1], sites));
    }
}

// ---------------------------------------------------------------------------
// Laws of merging
// ---------------------------------------------------------------------------

/// Two records that are each the last of their key in `flat`, with the same
/// key, are the same record.
proof fn lemma_last_same<T, K>(flat: Seq<T>, key: spec_fn(T) -> K, r1: T, r2: T)
    requires
        is_last_of(r1, flat, key),
        is_last_of(r2, flat, key),
        key(r1) == key(r2),
    ensures
        r1 == r2,
{
    let j1 = choose|j: int| 0 <= j < flat.len() && #[trigger] flat[j] == r1 && is_last(flat, j, key);
    let j2 = choose|j: int| 0 <= j < flat.len() && #[trigger] flat[j] == r2 && is_last(flat, j, key);
    if j1 < j2 {
        assert(key(flat[j2]) != key(flat[j1]));
    } else if j2 < j1 {
        assert(key(flat[j1]) != key(flat[j2]));
    }
}

/// Two strictly sorted sequences with the same keys, whose records of equal
/// key are equal, are equal.
proof fn lemma_sorted_same<T, K>(o1: Seq<T>, o2: Seq<T>, key: spec_fn(T) -> K, lt: spec_fn(K, K) -> bool)
    requires
        strict_total_order(lt),
        sorted_by(o1, key, lt),
        sorted_by(o2, key, lt),
        forall|i: int| 0 <= i < o1.len() ==> has_key(o2, key(#[trigger] o1[i]), key),
        forall|j: int| 0 <= j < o2.len() ==> has_key(o1, key(#[trigger] o2[j]), key),
        forall|i: int, j: int| 0 <= i < o1.len() && 0 <= j < o2.len() && key(#[trigger] o1[i]) == key(#[trigger] o2[j])
            ==> o1[i] == o2[j],
    ensures
        o1 == o2,
    decreases o1.len() + o2.len(),
{
    if o1.len() == 0 {
        if o2.len() > 0 {
            assert(has_key(o1, key(o2[0]), key));
        }
        assert(o1 =~= o2);
    } else {
        assert(has_key(o2, key(o1[0]), key));
        let j0 = choose|j: int| 0 <= j < o2.len() && key(#[trigger] o2[j]) == key(o1[0]);
        assert(has_key(o1, key(o2[0]), key));
        let i0 = choose|i: int| 0 <= i < o1.len() && key(#[trigger] o1[i]) == key(o2[0]);
        if j0 > 0 {
            assert(lt(key(o2[0]), key(o2[j0])));
            if i0 > 0 {
                assert(lt(key(o1[0]), key(o1[i0])));
            }
            assert(false);
        }
        assert(o1[0] == o2[0]);
        let r1 = o1.drop_first();
        let r2 = o2.drop_first();
        assert forall|i: int| 0 <= i < r1.len() implies has_key(r2, key(#[trigger] r1[i]), key) by {
            assert(r1[i] == o1[i + 1]);
            assert(has_key(o2, key(o1[i + 1]), key));
            let j = choose|j: int| 0 <= j < o2.len() && key(#[trigger] o2[j]) == key(o1[i + 1]);
            assert(lt(key(o1[0]), key(o1[i + 1])));
            if j == 0 {
                assert(lt(key(o1[0]), key(o1[0])));
            }
            assert(r2[j - 1] == o2[j]);
        }
        assert forall|j: int| 0 <= j < r2.len() implies has_key(r1, key(#[trigger] r2[j]), key) by {
            assert(r2[j] == o2[j + 1]);
            assert(has_key(o1, key(o2[j + 1]), key));
            let i = choose|i: int| 0 <= i < o1.len() && key(#[trigger] o1[i]) == key(o2[j + 1]);
            assert(lt(key(o2[0]), key(o2[j + 1])));
            if i == 0 {
                assert(lt(key(o2[0]), key(o2[0])));
            }
            assert(r1[i - 1] == o1[i]);
        }
        assert forall|i: int, j: int| 0 <= i < r1.len() && 0 <= j < r2.len() && key(#[trigger] r1[i]) == key(#[trigger] r2[j])
            implies r1[i] == r2[j] by {
            assert(r1[i] == o1[i + 1]);
            assert(r2[j] == o2[j + 1]);
        }
        assert(sorted_by(r1, key, lt)) by {
            assert forall|a: int, b: int| 0 <= a < b < r1.len() implies lt(key(#[trigger] r1[a]), key(#[trigger] r1[b])) by {
                assert(r1[a] == o1[a + 1]);
                assert(r1[b] == o1[b + 1]);
            }
        }
        assert(sorted_by(r2, key, lt)) by {
            assert forall|a: int, b: int| 0 <= a < b < r2.len() implies lt(key(#[trigger] r2[a]), key(#[trigger] r2[b])) by {
                assert(r2[a] == o2[a + 1]);
                assert(r2[b] == o2[b + 1]);
            }
        }
        lemma_sorted_same(r1, r2, key, lt);
        assert(o1 =~= seq![o1[0]] + r1);
        assert(o2 =~= seq![o2[0]] + r2);
    }
}

/// The de-duplication of a sequence of records is determined.
proof fn lemma_dedup_unique<T, K>(o1: Seq<T>, o2: Seq<T>, flat: Seq<T>, key: spec_fn(T) -> K, lt: spec_fn(K, K) -> bool)
    requires
        strict_total_order(lt),
        dedup_last(o1, flat, key, lt),
        dedup_last(o2, flat, key, lt),
    ensures
        o1 == o2,
{
    assert forall|i: int| 0 <= i < o1.len() implies has_key(o2, key(#[trigger] o1[i]), key) by {
        assert(is_last_of(o1[i], flat, key));
        let j = choose|j: int| 0 <= j < flat.len() && #[trigger] flat[j] == o1[i] && is_last(flat, j, key);
        assert(has_key(o2, key(flat[j]), key));
    }
    assert forall|j: int| 0 <= j < o2.len() implies has_key(o1, key(#[trigger] o2[j]), key) by {
        assert(is_last_of(o2[j], flat, key));
        let p = choose|p: int| 0 <= p < flat.len() && #[trigger] flat[p] == o2[j] && is_last(flat, p, key);
        assert(has_key(o1, key(flat[p]), key));
    }
    assert forall|i: int, j: int| 0 <= i < o1.len() && 0 <= j < o2.len() && key(#[trigger] o1[i]) == key(#[trigger] o2[j])
        implies o1[i] == o2[j] by {
        lemma_last_same(flat, key, o1[i], o2[j]);
    }
    lemma_sorted_same(o1, o2, key, lt);
}

/// A de-duplicated sequence is its own de-duplication.
proof fn lemma_dedup_self<T, K>(out: Seq<T>, flat: Seq<T>, key: spec_fn(T) -> K, lt: spec_fn(K, K) -> bool)
    requires
        strict_total_order(lt),
        dedup_last(out, flat, key, lt),
    ensures
        dedup_last(out, out, key, lt),
{
    assert forall|i: int| 0 <= i < out.len() implies is_last_of(#[trigger] out[i], out, key) by {
        assert forall|k: int| i < k < out.len() implies key(#[trigger] out[k]) != key(out[i]) by {
            assert(lt(key(out[i]), key(out[k])));
        }
        assert(is_last(out, i, key));
    }
    assert forall|j: int| 0 <= j < out.len() implies has_key(out, key(#[trigger] out[j]), key) by {
    }
}

/// Merging the records of a merge with later records is merging all of them.
proof fn lemma_dedup_then_later<T, K>(m: Seq<T>, f: Seq<T>, g: Seq<T>, out: Seq<T>, key: spec_fn(T) -> K, lt: spec_fn(K, K) -> bool)
    requires
        strict_total_order(lt),
        dedup_last(m, f, key, lt),
        dedup_last(out, m + g, key, lt),
    ensures
        dedup_last(out, f + g, key, lt),
{
    let mg = m + g;
    let fg = f + g;
    assert forall|i: int| 0 <= i < out.len() implies is_last_of(#[trigger] out[i], fg, key) by {
        let j = choose|j: int| 0 <= j < mg.len() && #[trigger] mg[j] == out[i] && is_last(mg, j, key);
        if j >= m.len() {
            let p = f.len() + (j - m.len());
            assert(fg[p] == out[i]);
            assert forall|k: int| p < k < fg.len() implies key(#[trigger] fg[k]) != key(fg[p]) by {
                assert(fg[k] == mg[k - f.len() + m.len()]);
            }
            assert(is_last(fg, p, key));
        } else {
            assert(is_last_of(m[j], f, key));
            let p = choose|p: int| 0 <= p < f.len() && #[trigger] f[p] == m[j] && is_last(f, p, key);
            assert(fg[p] == out[i]);
            assert forall|k: int| p < k < fg.len() implies key(#[trigger] fg[k]) != key(fg[p]) by {
                if k < f.len() {
                    assert(fg[k] == f[k]);
                } else {
                    assert(fg[k] == mg[k - f.len() + m.len()]);
                }
            }
            assert(is_last(fg, p, key));
        }
    }
    assert forall|j: int| 0 <= j < fg.len() implies has_key(out, key(#[trigger] fg[j]), key) by {
        if j >= f.len() {
            assert(fg[j] == mg[j - f.len() + m.len()]);
        } else {
            assert(fg[j] == f[j]);
            assert(has_key(m, key(f[j]), key));
            let q = choose|q: int| 0 <= q < m.len() && key(#[trigger] m[q]) == key(f[j]);
            assert(mg[q] == m[q]);
        }
    }
}

/// Merging earlier records with the merge of later ones is merging all of them.
proof fn lemma_earlier_then_dedup<T, K>(f: Seq<T>, m: Seq<T>, g: Seq<T>, out: Seq<T>, key: spec_fn(T) -> K, lt: spec_fn(K, K) -> bool)
    requires
        strict_total_order(lt),
        dedup_last(m, g, key, lt),
        dedup_last(out, f + m, key, lt),
    ensures
        dedup_last(out, f + g, key, lt),
{
    let fm = f + m;
    let fg = f + g;
    assert forall|i: int| 0 <= i < out.len() implies is_last_of(#[trigger] out[i], fg, key) by {
        let j = choose|j: int| 0 <= j < fm.len() && #[trigger] fm[j] == out[i] && is_last(fm, j, key);
        if j >= f.len() {
            let mj = j - f.len();
            assert(fm[j] == m[mj]);
            assert(is_last_of(m[mj], g, key));
            let p = choose|p: int| 0 <= p < g.len() && #[trigger] g[p] == m[mj] && is_last(g, p, key);
            assert(fg[f.len() + p] == out[i]);
            assert forall|k: int| f.len() + p < k < fg.len() implies key(#[trigger] fg[k]) != key(fg[f.len() + p]) by {
                assert(fg[k] == g[k - f.len()]);
            }
            assert(is_last(fg, f.len() + p, key));
        } else {
            assert(fg[j] == out[i]);
            assert forall|k: int| j < k < fg.len() implies key(#[trigger] fg[k]) != key(fg[j]) by {
                if k < f.len() {
                    assert(fg[k] == fm[k]);
                } else {
                    let q = k - f.len();
                    assert(fg[k] == g[q]);
                    if key(g[q]) == key(fg[j]) {
                        assert(has_key(m, key(g[q]), key));
                        let r = choose|r: int| 0 <= r < m.len() && key(#[trigger] m[r]) == key(g[q]);
                        assert(fm[f.len() + r] == m[r]);
                        assert(key(fm[f.len() + r]) != key(fm[j]));
                    }
                }
            }
            assert(is_last(fg, j, key));
        }
    }
    assert forall|j: int| 0 <= j < fg.len() implies has_key(out, key(#[trigger] fg[j]), key) by {
        if j < f.len() {
            assert(fg[j] == fm[j]);
        } else {
            let q = j - f.len();
            assert(fg[j] == g[q]);
            assert(has_key(m, key(g[q]), key));
            let r = choose|r: int| 0 <= r < m.len() && key(#[trigger] m[r]) == key(g[q]);
            assert(fm[f.len() + r] == m[r]);
        }
    }
}

/// `r` is what merging `cs` gives (the contract of `merge_configs`).
pub open spec fn is_merge(r: RawConfig, cs: Seq<RawConfig>) -> bool {
    &&& dedup_last(r.sites@, flat_sites(cs), site_key(), text_order())
    &&& dedup_last(r.accounts@, flat_accounts(cs), account_key(), pair_order())
    &&& r.email == merged_email(cs)
}

/// Two configurations that hold the same sites, accounts and e-mail settings.
pub open spec fn same_config(a: RawConfig, b: RawConfig) -> bool {
    &&& a.sites@ == b.sites@
    &&& a.accounts@ == b.accounts@
    &&& a.email == b.email
}

/// The merge of given configurations is determined: two merges of the same
/// configurations hold the same records.
pub proof fn law_merge_determined(cs: Seq<RawConfig>, r1: RawConfig, r2: RawConfig)
    requires
        is_merge(r1, cs),
        is_merge(r2, cs),
    ensures
        same_config(r1, r2),
{
    lemma_text_order_total();
    lemma_pair_order_total();
    lemma_dedup_unique(r1.sites@, r2.sites@, flat_sites(cs), site_key(), text_order());
    lemma_dedup_unique(r1.accounts@, r2.accounts@, flat_accounts(cs), account_key(), pair_order());
}

/// Merging nothing gives no site, no account and no e-mail settings.
pub proof fn law_merge_nothing(r: RawConfig)
    requires
        is_merge(r, Seq::empty()),
    ensures
        r.sites@.len() == 0,
        r.accounts@.len() == 0,
        r.email is None,
{
    if r.sites@.len() > 0 {
        assert(is_last_of(r.sites@[0], flat_sites(Seq::<RawConfig>::empty()), site_key()));
    }
    if r.accounts@.len() > 0 {
        assert(is_last_of(r.accounts@[0], flat_accounts(Seq::<RawConfig>::empty()), account_key()));
    }
}

proof fn lemma_flat_one(x: RawConfig)
    ensures
        flat_sites(seq![x]) == x.sites@,
        flat_accounts(seq![x]) == x.accounts@,
        merged_email(seq![x]) == x.email,
{
    assert(seq![x].drop_last() =~= Seq::<RawConfig>::empty());
    assert(seq![x].last() == x);
    assert(flat_sites(Seq::<RawConfig>::empty()) == Seq::<RawSite>::empty());
    assert(flat_accounts(Seq::<RawConfig>::empty()) == Seq::<RawAccount>::empty());
    assert(Seq::<RawSite>::empty() + x.sites@ =~= x.sites@);
    assert(Seq::<RawAccount>::empty() + x.accounts@ =~= x.accounts@);
    assert(merged_email(Seq::<RawConfig>::empty()) is None);
    assert(merged_email(seq![x]) == email_step(None, x.email));
}

proof fn lemma_flat_two(x: RawConfig, y: RawConfig)
    ensures
        flat_sites(seq![x, y]) == x.sites@ + y.sites@,
        flat_accounts(seq![x, y]) == x.accounts@ + y.accounts@,
        merged_email(seq![x, y]) == email_step(x.email, y.email),
{
    assert(seq![x, y].drop_last() =~= seq![x]);
    lemma_flat_one(x);
}

proof fn lemma_flat_three(x: RawConfig, y: RawConfig, z: RawConfig)
    ensures
        flat_sites(seq![x, y, z]) == x.sites@ + y.sites@ + z.sites@,
        flat_accounts(seq![x, y, z]) == x.accounts@ + y.accounts@ + z.accounts@,
        merged_email(seq![x, y, z]) == email_step(email_step(x.email, y.email), z.email),
{
    assert(seq![x, y, z].drop_last() =~= seq![x, y]);
    lemma_flat_two(x, y);
}

/// Merging an already merged configuration again changes nothing.
pub proof fn law_merge_idempotent(cs: Seq<RawConfig>, m: RawConfig, r: RawConfig)
    requires
        is_merge(m, cs),
        is_merge(r, seq![m]),
    ensures
        same_config(r, m),
{
    lemma_text_order_total();
    lemma_pair_order_total();
    lemma_flat_one(m);
    lemma_dedup_self(m.sites@, flat_sites(cs), site_key(), text_order());
    lemma_dedup_self(m.accounts@, flat_accounts(cs), account_key(), pair_order());
    lemma_dedup_unique(r.sites@, m.sites@, m.sites@, site_key(), text_order());
    lemma_dedup_unique(r.accounts@, m.accounts@, m.accounts@, account_key(), pair_order());
}

proof fn lemma_email_step_assoc(x: Option<RawEmail>, y: Option<RawEmail>, z: Option<RawEmail>)
    ensures
        email_step(x, email_step(y, z)) == email_step(email_step(x, y), z),
{
    match (x, y, z) {
        (Some(a), Some(b), Some(c)) => {
            assert(overlay_spec(a, overlay_spec(b, c)) == overlay_spec(overlay_spec(a, b), c));
        },
        _ => {},
    }
}

/// Merging in stages, keeping the priority order, gives what merging all at
/// once gives: the first two then the third, or the first then the merge of
/// the last two.
pub proof fn law_merge_in_stages(
    a: RawConfig,
    b: RawConfig,
    c: RawConfig,
    ab: RawConfig,
    bc: RawConfig,
    left: RawConfig,
    right: RawConfig,
    all: RawConfig,
)
    requires
        is_merge(ab, seq![a, b]),
        is_merge(bc, seq![b, c]),
        is_merge(left, seq![ab, c]),
        is_merge(right, seq![a, bc]),
        is_merge(all, seq![a, b, c]),
    ensures
        same_config(left, all),
        same_config(right, all),
{
    lemma_text_order_total();
    lemma_pair_order_total();
    lemma_flat_two(a, b);
    lemma_flat_two(b, c);
    lemma_flat_two(ab, c);
    lemma_flat_two(a, bc);
    lemma_flat_three(a, b, c);
    assert(a.sites@ + b.sites@ + c.sites@ == a.sites@ + (b.sites@ + c.sites@));
    assert(a.accounts@ + b.accounts@ + c.accounts@ == a.accounts@ + (b.accounts@ + c.accounts@));
    lemma_dedup_then_later(ab.sites@, a.sites@ + b.sites@, c.sites@, left.sites@, site_key(), text_order());
    lemma_dedup_then_later(ab.accounts@, a.accounts@ + b.accounts@, c.accounts@, left.accounts@, account_key(), pair_order());
    lemma_dedup_unique(left.sites@, all.sites@, a.sites@ + b.sites@ + c.sites@, site_key(), text_order());
    lemma_dedup_unique(left.accounts@, all.accounts@, a.accounts@ + b.accounts@ + c.accounts@, account_key(), pair_order());
    lemma_earlier_then_dedup(a.sites@, bc.sites@, b.sites@ + c.sites@, right.sites@, site_key(), text_order());
    lemma_earlier_then_dedup(a.accounts@, bc.accounts@, b.accounts@ + c.accounts@, right.accounts@, account_key(), pair_order());
    lemma_dedup_unique(right.sites@, all.sites@, a.sites@ + b.sites@ + c.sites@, site_key(), text_order());
    lemma_dedup_unique(right.accounts@, all.accounts@, a.accounts@ + b.accounts@ + c.accounts@, account_key(), pair_order());
    lemma_email_step_assoc(a.email, b.email, c.email);
}

} // verus!
