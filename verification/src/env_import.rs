//! First-run import of the environment configuration into the database:
//! the two built-in sites, then one account per `ANYROUTER_ACCOUNTS` element.
//! The database writes and the reading of the variable happen at the edge;
//! this module decides what is written.
use vstd::prelude::*;
use crate::text::{to_lowercase, unicode_lower, str_eq, fmt_u64, dec};
use crate::config_loader::types::{lit, copy_opt};
use crate::config_loader::env_source::EnvAccountEntry;
use crate::models::{SiteInput, AccountInput};

verus! {

/// A built-in site with the new-api paths.
pub open spec fn builtin_site_ok(s: SiteInput, name: Seq<char>, domain: Seq<char>, sign_in: Option<Seq<char>>) -> bool {
    &&& s.name@ == name
    &&& s.domain@ == domain
    &&& s.login_path@ == "/login"@
    &&& match (s.sign_in_path, sign_in) {
        (Some(a), Some(b)) => a@ == b,
        (None, None) => true,
        _ => false,
    }
    &&& s.user_info_path@ == "/api/user/self"@
    &&& s.tokens_path@ == "/api/token/"@
    &&& s.logs_path@ == "/api/log/self"@
    &&& s.chart_path@ == "/api/data/self"@
    &&& s.api_user_key@ == "new-api-user"@
}

fn builtin_site(name: &str, domain: &str, sign_in_path: Option<&str>) -> (r: SiteInput)
    ensures
        builtin_site_ok(r, name@, domain@, match sign_in_path {
            Some(p) => Some(p@),
            None => None,
        }),
{
    SiteInput {
        name: lit(name),
        domain: lit(domain),
        login_path: lit("/login"),
        sign_in_path: match sign_in_path {
            Some(p) => Some(lit(p)),
            None => None,
        },
        user_info_path: lit("/api/user/self"),
        tokens_path: lit("/api/token/"),
        logs_path: lit("/api/log/self"),
        chart_path: lit("/api/data/self"),
        api_user_key: lit("new-api-user"),
    }
}

/// The sites inserted on first run: AnyRouter (explicit sign-in), then
/// AgentRouter (signed in by visiting).
pub fn import_sites() -> (r: Vec<SiteInput>)
    ensures
        r@.len() == 2,
        builtin_site_ok(r@[0], "AnyRouter"@, "https://anyrouter.top"@, Some("/api/user/sign_in"@)),
        builtin_site_ok(r@[1], "AgentRouter"@, "https://agentrouter.org"@, None),
{
    let mut v: Vec<SiteInput> = Vec::new();
    v.push(builtin_site("AnyRouter", "https://anyrouter.top", Some("/api/user/sign_in")));
    v.push(builtin_site("AgentRouter", "https://agentrouter.org", None));
    v
}

/// The cookie text kept for an imported account: the JSON text of its
/// `cookies` value unless that is an empty string, an empty array or null.
pub open spec fn imported_cookies(cookies_json: Option<String>) -> Option<Seq<char>> {
    match cookies_json {
        Some(t) => if t@ == "\"\""@ || t@ == "[]"@ || t@ == "null"@ {
            None
        } else {
            Some(t@)
        },
        None => None,
    }
}

/// The account that the `index`-th element imports: its provider decides
/// the site (AgentRouter for `agentrouter` in any case, AnyRouter
/// otherwise), an empty or missing name becomes `Account n`.
pub open spec fn imported_account_ok(a: AccountInput, e: EnvAccountEntry, index: nat, anyrouter_id: i64, agentrouter_id: i64) -> bool {
    let provider = match e.provider {
        Some(p) => p@,
        None => Seq::empty(),
    };
    &&& a.site_id == if unicode_lower(provider) == "agentrouter"@ {
        agentrouter_id
    } else {
        anyrouter_id
    }
    &&& a.name@ == match e.name {
        Some(n) => if n@.len() > 0 {
            n@
        } else {
            "Account "@ + dec(index + 1)
        },
        None => "Account "@ + dec(index + 1),
    }
    &&& a.api_user@ == match e.api_user {
        Some(u) => u@,
        None => Seq::empty(),
    }
    &&& a.username == e.username
    &&& a.password == e.password
    &&& crate::checkin::opt_text(a.cookies) == imported_cookies(e.cookies_json)
}

/// An imported account keeps the element's credentials as they are: its
/// username and password are the element's, its api_user is the element's
/// (empty when missing), and a cookie text other than an empty string, an
/// empty array or null is kept unchanged.
pub proof fn law_imported_account_keeps_credentials(a: AccountInput, e: EnvAccountEntry, index: nat, anyrouter_id: i64, agentrouter_id: i64)
    requires
        imported_account_ok(a, e, index, anyrouter_id, agentrouter_id),
    ensures
        a.username == e.username,
        a.password == e.password,
        e.api_user is Some ==> a.api_user@ == e.api_user->0@,
        e.api_user is None ==> a.api_user@.len() == 0,
        e.cookies_json is None ==> a.cookies is None,
        e.cookies_json is Some && e.cookies_json->0@ != "\"\""@ && e.cookies_json->0@ != "[]"@
            && e.cookies_json->0@ != "null"@ ==> a.cookies is Some && a.cookies->0@ == e.cookies_json->0@,
{
}

/// The account input for the `index`-th `ANYROUTER_ACCOUNTS` element.
pub fn import_account(e: &EnvAccountEntry, index: usize, anyrouter_id: i64, agentrouter_id: i64) -> (r: AccountInput)
    requires
        index < usize::MAX,
    ensures
        imported_account_ok(r, *e, index as nat, anyrouter_id, agentrouter_id),
{
    let provider = match &e.provider {
        Some(p) => to_lowercase(p.as_str()),
        None => to_lowercase(""),
    };
    proof {
        reveal_strlit("");
        assert(""@ =~= Seq::<char>::empty());
    }
    let site_id = if str_eq(provider.as_str(), "agentrouter") {
        agentrouter_id
    } else {
        anyrouter_id
    };
    let name = match &e.name {
        Some(n) => {
            if n.as_str().is_empty() {
                let mut t = lit("Account ");
                let k = fmt_u64((index + 1) as u64);
                t.append(k.as_str());
                t
            } else {
                n.clone()
            }
        },
        None => {
            let mut t = lit("Account ");
            let k = fmt_u64((index + 1) as u64);
            t.append(k.as_str());
            t
        },
    };
    let api_user = match &e.api_user {
        Some(u) => u.clone(),
        None => String::new(),
    };
    let cookies = match &e.cookies_json {
        Some(t) => {
            if str_eq(t.as_str(), "\"\"") || str_eq(t.as_str(), "[]") || str_eq(t.as_str(), "null") {
                None
            } else {
                Some(t.clone())
            }
        },
        None => None,
    };
    AccountInput {
        site_id,
        name,
        api_user,
        username: copy_opt(&e.username),
        password: copy_opt(&e.password),
        cookies,
    }
}

/// The account inputs for all elements, in order.
pub fn import_accounts(entries: &Vec<EnvAccountEntry>, anyrouter_id: i64, agentrouter_id: i64) -> (r: Vec<AccountInput>)
    ensures
        r@.len() == entries@.len(),
        forall|i: int| 0 <= i < r@.len() ==> imported_account_ok(#[trigger] r@[i], entries@[i], i as nat, anyrouter_id, agentrouter_id),
{
    let mut r: Vec<AccountInput> = Vec::new();
    let mut i: usize = 0;
    while i < entries.len()
        invariant
            i <= entries@.len(),
            r@.len() == i,
            forall|j: int| 0 <= j < i ==> imported_account_ok(#[trigger] r@[j], entries@[j], j as nat, anyrouter_id, agentrouter_id),
        decreases entries.len() - i,
    {
        let a = import_account(&entries[i], i, anyrouter_id, agentrouter_id);
        r.push(a);
        i = i + 1;
    }
    r
}

} // verus!
