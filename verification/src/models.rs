//! The records kept in the database of sites, accounts and fetched details.
use vstd::prelude::*;

verus! {

/// A site row.
#[derive(Debug, Clone)]
pub struct Site {
    pub id: i64,
    pub name: String,
    pub domain: String,
    pub login_path: String,
    pub sign_in_path: Option<String>,
    pub user_info_path: String,
    pub tokens_path: String,
    pub logs_path: String,
    pub chart_path: String,
    pub api_user_key: String,
    pub created_at: String,
    pub updated_at: String,
}

/// An account row (sensitive fields decrypted).
#[derive(Debug, Clone)]
pub struct Account {
    pub id: i64,
    pub site_id: i64,
    pub name: String,
    pub api_user: String,
    pub username: Option<String>,
    pub password: Option<String>,
    pub cookies: Option<String>,
    pub cookie_issued_at: Option<String>,
    pub cookie_expires_at: Option<String>,
    pub created_at: String,
    pub updated_at: String,
}

/// A cached detail payload of an account.
#[derive(Debug, Clone)]
pub struct AccountCache {
    pub account_id: i64,
    pub kind: CacheKind,
    pub payload_json: String,
    pub fetched_at: String,
}

/// The kinds of cached detail.
#[derive(Debug, Clone, Copy, PartialEq, Eq, Structural)]
pub enum CacheKind {
    Overview,
    Tokens,
    Logs,
    Chart,
}

/// The stored name of a cache kind.
pub open spec fn cache_kind_name(k: CacheKind) -> Seq<char> {
    match k {
        CacheKind::Overview => "overview"@,
        CacheKind::Tokens => "tokens"@,
        CacheKind::Logs => "logs"@,
        CacheKind::Chart => "chart"@,
    }
}

impl CacheKind {
    pub fn as_str(&self) -> (r: &'static str)
        ensures
            r@ == cache_kind_name(*self),
    {
        match self {
            CacheKind::Overview => "overview",
            CacheKind::Tokens => "tokens",
            CacheKind::Logs => "logs",
            CacheKind::Chart => "chart",
        }
    }
}

/// The kind a stored name denotes; an unknown name reads as `Overview`.
pub fn parse_cache_kind(s: &str) -> (r: CacheKind)
    ensures
        s@ == "tokens"@ ==> r == CacheKind::Tokens,
        s@ == "logs"@ ==> r == CacheKind::Logs,
        s@ == "chart"@ ==> r == CacheKind::Chart,
        s@ != "tokens"@ && s@ != "logs"@ && s@ != "chart"@ ==> r == CacheKind::Overview,
{
    proof {
        reveal_strlit("overview");
        reveal_strlit("tokens");
        reveal_strlit("logs");
        reveal_strlit("chart");
        assert("overview"@[0] != "tokens"@[0] && "overview"@[0] != "logs"@[0] && "overview"@[0] != "chart"@[0]);
        assert("tokens"@[0] != "logs"@[0] && "tokens"@[0] != "chart"@[0] && "logs"@[0] != "chart"@[0]);
    }
    if crate::text::str_eq(s, "overview") {
        CacheKind::Overview
    } else if crate::text::str_eq(s, "tokens") {
        CacheKind::Tokens
    } else if crate::text::str_eq(s, "logs") {
        CacheKind::Logs
    } else if crate::text::str_eq(s, "chart") {
        CacheKind::Chart
    } else {
        CacheKind::Overview
    }
}

/// Reading back the stored name of a kind gives the kind.
pub proof fn law_cache_kind_round_trip(k: CacheKind)
    ensures
        k == CacheKind::Tokens <==> cache_kind_name(k) == "tokens"@,
        k == CacheKind::Logs <==> cache_kind_name(k) == "logs"@,
        k == CacheKind::Chart <==> cache_kind_name(k) == "chart"@,
{
    reveal_strlit("overview");
    reveal_strlit("tokens");
    reveal_strlit("logs");
    reveal_strlit("chart");
    assert("overview"@[0] == 'o');
    assert("tokens"@[0] == 't');
    assert("logs"@[0] == 'l');
    assert("chart"@[0] == 'c');
}

/// The stored names of distinct kinds differ.
pub proof fn law_cache_kind_names_distinct(a: CacheKind, b: CacheKind)
    requires
        a != b,
    ensures
        cache_kind_name(a) != cache_kind_name(b),
{
    reveal_strlit("overview");
    reveal_strlit("tokens");
    reveal_strlit("logs");
    reveal_strlit("chart");
    assert(cache_kind_name(a).len() != cache_kind_name(b).len() || cache_kind_name(a)[0] != cache_kind_name(b)[0]);
}

/// The input for creating or updating a site.
#[derive(Debug, Clone)]
pub struct SiteInput {
    pub name: String,
    pub domain: String,
    pub login_path: String,
    pub sign_in_path: Option<String>,
    pub user_info_path: String,
    pub tokens_path: String,
    pub logs_path: String,
    pub chart_path: String,
    pub api_user_key: String,
}

/// The input for creating or updating an account.
#[derive(Debug, Clone)]
pub struct AccountInput {
    pub site_id: i64,
    pub name: String,
    pub api_user: String,
    pub username: Option<String>,
    pub password: Option<String>,
    pub cookies: Option<String>,
}

} // verus!
