//! The rows of the desktop application's database (sites, accounts) and the
//! inputs that create or edit them.  The database itself is reached at the
//! edge.
use vstd::prelude::*;
use crate::config_loader::types::lit;

verus! {

/// A site row.
#[derive(Debug, Clone)]
pub struct Site {
    pub id: i64,
    pub name: String,
    pub domain: String,
    pub login_path: String,
    pub sign_in_path: Option<String>,
    pub user_info_path: String,
    pub tokens_path: String,
    pub logs_path: String,
    pub chart_path: String,
    pub api_user_key: String,
    pub created_at: String,
    pub updated_at: String,
}

/// The input that creates or edits a site (the store assigns id and times).
#[derive(Debug, Clone)]
pub struct SiteInput {
    pub name: String,
    pub domain: String,
    pub login_path: String,
    pub sign_in_path: Option<String>,
    pub user_info_path: String,
    pub tokens_path: String,
    pub logs_path: String,
    pub chart_path: String,
    pub api_user_key: String,
}

impl SiteInput {
    /// A site following the new-api path conventions: `/login`,
    /// `/api/user/sign_in`, `/api/user/self`, `/api/token/`, `/api/log/self`,
    /// `/api/data/self` and the `new-api-user` header.
    pub fn with_defaults(name: &str, domain: &str) -> (r: Self)
        ensures
            r.name@ == name@,
            r.domain@ == domain@,
            r.login_path@ == "/login"@,
            r.sign_in_path matches Some(p) && p@ == "/api/user/sign_in"@,
            r.user_info_path@ == "/api/user/self"@,
            r.tokens_path@ == "/api/token/"@,
            r.logs_path@ == "/api/log/self"@,
            r.chart_path@ == "/api/data/self"@,
            r.api_user_key@ == "new-api-user"@,
    {
        SiteInput {
            name: lit(name),
            domain: lit(domain),
            login_path: lit("/login"),
            sign_in_path: Some(lit("/api/user/sign_in")),
            user_info_path: lit("/api/user/self"),
            tokens_path: lit("/api/token/"),
            logs_path: lit("/api/log/self"),
            chart_path: lit("/api/data/self"),
            api_user_key: lit("new-api-user"),
        }
    }
}

/// An account row (sensitive fields decrypted).
#[derive(Debug, Clone)]
pub struct Account {
    pub id: i64,
    pub site_id: i64,
    pub name: String,
    pub api_user: String,
    pub username: Option<String>,
    pub password: Option<String>,
    /// JSON text of the structured cookie array.
    pub cookies_json: Option<String>,
    pub cookie_issued_at: Option<String>,
    pub cookie_expires_at: Option<String>,
    pub created_at: String,
    pub updated_at: String,
}

/// The input that creates or edits an account.
#[derive(Debug, Clone, Default)]
pub struct AccountInput {
    pub site_id: i64,
    pub name: String,
    pub api_user: String,
    pub username: Option<String>,
    pub password: Option<String>,
    pub cookies_json: Option<String>,
    pub cookie_issued_at: Option<String>,
    pub cookie_expires_at: Option<String>,
}

} // verus!
