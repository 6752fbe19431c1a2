//! The records exchanged with the browser-automation runner.
use vstd::prelude::*;
use crate::config::{AccountConfig, AppConfig, ProviderConfig, CookieValue, display_name_spec, resolved_spec, opt_text, lookup_provider, unique_names};
use crate::text::{trim, trim_str, dec, fmt_u64};
use crate::config_loader::types::{lit, copy_opt};

verus! {

/// The cookie analysis of a login.
#[derive(Debug, Clone, Default)]
pub struct CookieReport {
    /// Names of the cookies sent with the login request.
    pub request_cookie_names: Vec<String>,
    /// Names of the cookies set by the login response.
    pub response_cookie_names: Vec<String>,
    /// The cookies analysed.
    pub cookies: Vec<CookieReportEntry>,
    /// A further remark.
    pub note: Option<String>,
}

/// The analysis of one cookie.
#[derive(Debug, Clone, Default)]
pub struct CookieReportEntry {
    pub name: String,
    pub domain: Option<String>,
    pub path: Option<String>,
    pub source: Option<String>,
    pub expires_at: Option<String>,
    pub expires_in: Option<String>,
    pub max_age_seconds: Option<i64>,
    pub same_site: Option<String>,
    pub secure: bool,
    pub http_only: bool,
    pub is_session: bool,
}

impl CookieReport {
    pub fn set_request_cookie_names(&mut self, value: Vec<String>) -> (r: &mut Self)
        ensures
            *r == (CookieReport { request_cookie_names: value, ..*old(self) }),
            *final(self) == *final(r),
    {
        self.request_cookie_names = value;
        self
    }

    pub fn set_response_cookie_names(&mut self, value: Vec<String>) -> (r: &mut Self)
        ensures
            *r == (CookieReport { response_cookie_names: value, ..*old(self) }),
            *final(self) == *final(r),
    {
        self.response_cookie_names = value;
        self
    }

    pub fn set_cookies(&mut self, value: Vec<CookieReportEntry>) -> (r: &mut Self)
        ensures
            *r == (CookieReport { cookies: value, ..*old(self) }),
            *final(self) == *final(r),
    {
        self.cookies = value;
        self
    }

    pub fn set_note(&mut self, value: Option<String>) -> (r: &mut Self)
        ensures
            *r == (CookieReport { note: value, ..*old(self) }),
            *final(self) == *final(r),
    {
        self.note = value;
        self
    }
}

impl CookieReportEntry {
    pub fn set_name(&mut self, value: String) -> (r: &mut Self)
        ensures
            *r == (CookieReportEntry { name: value, ..*old(self) }),
            *final(self) == *final(r),
    {
        self.name = value;
        self
    }

    pub fn set_domain(&mut self, value: Option<String>) -> (r: &mut Self)
        ensures
            *r == (CookieReportEntry { domain: value, ..*old(self) }),
            *final(self) == *final(r),
    {
        self.domain = value;
        self
    }

    pub fn set_path(&mut self, value: Option<String>) -> (r: &mut Self)
        ensures
            *r == (CookieReportEntry { path: value, ..*old(self) }),
            *final(self) == *final(r),
    {
        self.path = value;
        self
    }

    pub fn set_source(&mut self, value: Option<String>) -> (r: &mut Self)
        ensures
            *r == (CookieReportEntry { source: value, ..*old(self) }),
            *final(self) == *final(r),
    {
        self.source = value;
        self
    }

    pub fn set_expires_at(&mut self, value: Option<String>) -> (r: &mut Self)
        ensures
            *r == (CookieReportEntry { expires_at: value, ..*old(self) }),
            *final(self) == *final(r),
    {
        self.expires_at = value;
        self
    }

    pub fn set_expires_in(&mut self, value: Option<String>) -> (r: &mut Self)
        ensures
            *r == (CookieReportEntry { expires_in: value, ..*old(self) }),
            *final(self) == *final(r),
    {
        self.expires_in = value;
        self
    }

    pub fn set_max_age_seconds(&mut self, value: Option<i64>) -> (r: &mut Self)
        ensures
            *r == (CookieReportEntry { max_age_seconds: value, ..*old(self) }),
            *final(self) == *final(r),
    {
        self.max_age_seconds = value;
        self
    }

    pub fn set_same_site(&mut self, value: Option<String>) -> (r: &mut Self)
        ensures
            *r == (CookieReportEntry { same_site: value, ..*old(self) }),
            *final(self) == *final(r),
    {
        self.same_site = value;
        self
    }

    pub fn set_secure(&mut self, value: bool) -> (r: &mut Self)
        ensures
            *r == (CookieReportEntry { secure: value, ..*old(self) }),
            *final(self) == *final(r),
    {
        self.secure = value;
        self
    }

    pub fn set_http_only(&mut self, value: bool) -> (r: &mut Self)
        ensures
            *r == (CookieReportEntry { http_only: value, ..*old(self) }),
            *final(self) == *final(r),
    {
        self.http_only = value;
        self
    }

    pub fn set_is_session(&mut self, value: bool) -> (r: &mut Self)
        ensures
            *r == (CookieReportEntry { is_session: value, ..*old(self) }),
            *final(self) == *final(r),
    {
        self.is_session = value;
        self
    }
}

/// What the browser runner is asked to do.
#[derive(Debug, Clone, Copy, PartialEq, Eq, Structural)]
pub enum PlaywrightAction {
    Checkin,
    Login,
    FetchDetail,
}

/// What one account hands to the browser runner: the account merged with
/// its provider's site description.
#[derive(Debug, Clone)]
pub struct PlaywrightAccount {
    pub name: String,
    pub provider: String,
    pub domain: String,
    pub login_path: String,
    pub sign_in_path: Option<String>,
    pub user_info_path: String,
    pub api_user_key: String,
    pub api_user: String,
    pub cookies: CookieValue,
    pub username: Option<String>,
    pub password: Option<String>,
    pub sso_provider: Option<String>,
    pub sso_username: Option<String>,
    pub sso_password: Option<String>,
}

/// The per-account credential variables of the environment
/// (`ANYROUTER_USERNAME_<n>` and its siblings), each trimmed and kept only
/// when non-blank.
#[derive(Debug, Clone, Default)]
pub struct EnvCredentials {
    pub username: Option<String>,
    pub password: Option<String>,
    pub sso_provider: Option<String>,
    pub sso_username: Option<String>,
    pub sso_password: Option<String>,
}

/// The name of the credential variable `<prefix>_<index + 1>`.
pub open spec fn credential_var(prefix: Seq<char>, index: nat) -> Seq<char> {
    prefix + "_"@ + dec(index + 1)
}

/// Names the credential variable of the account at `index`, such as
/// `ANYROUTER_USERNAME_1` for the first account.
pub fn credential_var_name(prefix: &str, index: usize) -> (r: String)
    requires
        index < usize::MAX,
    ensures
        r@ == credential_var(prefix@, index as nat),
{
    let mut r = lit(prefix);
    r.append("_");
    let n = fmt_u64((index + 1) as u64);
    r.append(n.as_str());
    r
}

/// A credential variable's value as used: trimmed, and absent when blank.
pub fn credential_value(raw: Option<String>) -> (r: Option<String>)
    ensures
        match raw {
            Some(v) => if trim(v@).len() > 0 {
                opt_text(r) == Some(trim(v@))
            } else {
                r is None
            },
            None => r is None,
        },
{
    match raw {
        Some(v) => {
            let t = trim_str(v.as_str());
            if t.as_str().is_empty() {
                None
            } else {
                Some(t)
            }
        },
        None => None,
    }
}

/// The first of two optional values that is present.
pub open spec fn or_else_opt(a: Option<Seq<char>>, b: Option<String>) -> Option<Seq<char>> {
    match a {
        Some(x) => Some(x),
        None => opt_text(b),
    }
}

/// The runner record of the account at `index`: its display name, its
/// provider's site paths, its own fields, and credentials taken from the
/// account (explicit fields, then the legacy `cookies._username`,
/// `cookies._password` and `cookies._sso_*`) or else from the environment.
pub fn build_account(account: &AccountConfig, provider: &ProviderConfig, index: usize, env: &EnvCredentials) -> (r: PlaywrightAccount)
    requires
        index < usize::MAX,
    ensures
        r.name@ == display_name_spec(account.name, index as nat),
        r.provider == account.provider,
        r.domain == provider.domain,
        r.login_path == provider.login_path,
        r.sign_in_path == provider.sign_in_path,
        r.user_info_path == provider.user_info_path,
        r.api_user_key == provider.api_user_key,
        r.api_user == account.api_user,
        crate::config::same_cookie_value(r.cookies, account.cookies),
        opt_text(r.username) == or_else_opt(resolved_spec(account.username, account.cookies, "_username"@), env.username),
        opt_text(r.password) == or_else_opt(resolved_spec(account.password, account.cookies, "_password"@), env.password),
        opt_text(r.sso_provider) == or_else_opt(resolved_spec(account.sso_provider, account.cookies, "_sso_provider"@), env.sso_provider),
        opt_text(r.sso_username) == or_else_opt(resolved_spec(account.sso_username, account.cookies, "_sso_username"@), env.sso_username),
        opt_text(r.sso_password) == or_else_opt(resolved_spec(account.sso_password, account.cookies, "_sso_password"@), env.sso_password),
{
    let username = match account.resolved_username() {
        Some(u) => Some(u),
        None => copy_opt(&env.username),
    };
    let password = match account.resolved_password() {
        Some(p) => Some(p),
        None => copy_opt(&env.password),
    };
    let sso_provider = match account.resolved_sso_provider() {
        Some(v) => Some(v),
        None => copy_opt(&env.sso_provider),
    };
    let sso_username = match account.resolved_sso_username() {
        Some(v) => Some(v),
        None => copy_opt(&env.sso_username),
    };
    let sso_password = match account.resolved_sso_password() {
        Some(v) => Some(v),
        None => copy_opt(&env.sso_password),
    };
    PlaywrightAccount {
        name: account.get_display_name(index),
        provider: account.provider.clone(),
        domain: provider.domain.clone(),
        login_path: provider.login_path.clone(),
        sign_in_path: copy_opt(&provider.sign_in_path),
        user_info_path: provider.user_info_path.clone(),
        api_user_key: provider.api_user_key.clone(),
        api_user: account.api_user.clone(),
        cookies: account.cookies.copy(),
        username,
        password,
        sso_provider,
        sso_username,
        sso_password,
    }
}


/// Whether `r` is the runner record that `build_account` makes of `account`
/// at `index` with `provider` and the environment's credentials `env`.
pub open spec fn record_of(r: PlaywrightAccount, account: AccountConfig, provider: ProviderConfig, index: nat, env: EnvCredentials) -> bool {
    &&& r.name@ == display_name_spec(account.name, index)
    &&& r.provider == account.provider
    &&& r.domain == provider.domain
    &&& r.login_path == provider.login_path
    &&& r.sign_in_path == provider.sign_in_path
    &&& r.user_info_path == provider.user_info_path
    &&& r.api_user_key == provider.api_user_key
    &&& r.api_user == account.api_user
    &&& crate::config::same_cookie_value(r.cookies, account.cookies)
    &&& opt_text(r.username) == or_else_opt(resolved_spec(account.username, account.cookies, "_username"@), env.username)
    &&& opt_text(r.password) == or_else_opt(resolved_spec(account.password, account.cookies, "_password"@), env.password)
    &&& opt_text(r.sso_provider) == or_else_opt(resolved_spec(account.sso_provider, account.cookies, "_sso_provider"@), env.sso_provider)
    &&& opt_text(r.sso_username) == or_else_opt(resolved_spec(account.sso_username, account.cookies, "_sso_username"@), env.sso_username)
    &&& opt_text(r.sso_password) == or_else_opt(resolved_spec(account.sso_password, account.cookies, "_sso_password"@), env.sso_password)
}

/// The positions, among the first `n` accounts, of those whose provider is
/// registered: the accounts handed to the runner.
pub open spec fn dispatched_upto(accounts: Seq<AccountConfig>, providers: Seq<(String, ProviderConfig)>, n: int) -> Seq<int>
    decreases n,
{
    if n <= 0 {
        Seq::empty()
    } else {
        let r = dispatched_upto(accounts, providers, n - 1);
        if lookup_provider(providers, accounts[n - 1].provider@) is Some {
            r.push(n - 1)
        } else {
            r
        }
    }
}

/// The warning for an account whose provider is not registered.
pub open spec fn skip_warning(account: AccountConfig, index: nat) -> Seq<char> {
    "Provider \""@ + account.provider@ + "\" not found, skipping account "@ + display_name_spec(account.name, index)
}

/// The warnings for the skipped accounts among the first `n`, in order.
pub open spec fn skip_warnings_upto(accounts: Seq<AccountConfig>, providers: Seq<(String, ProviderConfig)>, n: int) -> Seq<Seq<char>>
    decreases n,
{
    if n <= 0 {
        Seq::empty()
    } else {
        let r = skip_warnings_upto(accounts, providers, n - 1);
        if lookup_provider(providers, accounts[n - 1].provider@) is Some {
            r
        } else {
            r.push(skip_warning(accounts[n - 1], (n - 1) as nat))
        }
    }
}

/// The runner records of the accounts whose provider is registered, each
/// with its position (an error when there is none), and a warning for each
/// account skipped.  `env[i]` holds the environment's credentials of the
/// account at `i`.
pub fn runner_accounts(accounts: &Vec<AccountConfig>, config: &AppConfig, env: &Vec<EnvCredentials>) -> (r: (
    Result<Vec<(usize, PlaywrightAccount)>, String>,
    Vec<String>,
))
    requires
        accounts@.len() == env@.len(),
        accounts@.len() < usize::MAX,
        unique_names(config.providers@),
    ensures
        r.1@.map_values(|w: String| w@) == skip_warnings_upto(accounts@, config.providers@, accounts@.len() as int),
        r.0 is Err <==> dispatched_upto(accounts@, config.providers@, accounts@.len() as int).len() == 0,
        r.0 matches Err(e) ==> e@ == "No valid accounts to process"@,
        r.0 matches Ok(v) ==> {
            let d = dispatched_upto(accounts@, config.providers@, accounts@.len() as int);
            &&& v@.len() == d.len()
            &&& forall|k: int| 0 <= k < v@.len() ==> {
                &&& #[trigger] v@[k].0 == d[k]
                &&& record_of(
                    v@[k].1,
                    accounts@[d[k]],
                    lookup_provider(config.providers@, accounts@[d[k]].provider@).unwrap(),
                    d[k] as nat,
                    env@[d[k]],
                )
            }
        },
{
    let mut out: Vec<(usize, PlaywrightAccount)> = Vec::new();
    let mut warnings: Vec<String> = Vec::new();
    let mut i: usize = 0;
    while i < accounts.len()
        invariant
            i <= accounts@.len(),
            accounts@.len() == env@.len(),
            accounts@.len() < usize::MAX,
            unique_names(config.providers@),
            warnings@.map_values(|w: String| w@) == skip_warnings_upto(accounts@, config.providers@, i as int),
            out@.len() == dispatched_upto(accounts@, config.providers@, i as int).len(),
            forall|k: int| 0 <= k < out@.len() ==> {
                let d = dispatched_upto(accounts@, config.providers@, i as int);
                &&& #[trigger] out@[k].0 == d[k]
                &&& 0 <= d[k] < i
                &&& record_of(
                    out@[k].1,
                    accounts@[d[k]],
                    lookup_provider(config.providers@, accounts@[d[k]].provider@).unwrap(),
                    d[k] as nat,
                    env@[d[k]],
                )
            },
        decreases accounts@.len() - i,
    {
        let account = &accounts[i];
        let ghost before = out@;
        let ghost wbefore = warnings@;
        match config.get_provider(account.provider.as_str()) {
            Some(provider) => {
                let built = build_account(account, provider, i, &env[i]);
                out.push((i, built));
                proof {
                    let d = dispatched_upto(accounts@, config.providers@, i + 1);
                    assert(d == dispatched_upto(accounts@, config.providers@, i as int).push(i as int));
                    assert forall|k: int| 0 <= k < out@.len() implies {
                        &&& #[trigger] out@[k].0 == d[k]
                        &&& 0 <= d[k] < i + 1
                        &&& record_of(
                            out@[k].1,
                            accounts@[d[k]],
                            lookup_provider(config.providers@, accounts@[d[k]].provider@).unwrap(),
                            d[k] as nat,
                            env@[d[k]],
                        )
                    } by {
                        if k < before.len() {
                            assert(out@[k] == before[k]);
                        }
                    }
                }
                assert(warnings@.map_values(|w: String| w@) =~= skip_warnings_upto(accounts@, config.providers@, i + 1));
            },
            None => {
                let name = account.get_display_name(i);
                let mut w = lit("Provider \"");
                w.append(account.provider.as_str());
                w.append("\" not found, skipping account ");
                w.append(name.as_str());
                warnings.push(w);
                proof {
                    let d = dispatched_upto(accounts@, config.providers@, i + 1);
                    assert(d == dispatched_upto(accounts@, config.providers@, i as int));
                    assert(w@ =~= skip_warning(accounts@[i as int], i as nat));
                    assert(warnings@.map_values(|w: String| w@) =~= wbefore.map_values(|w: String| w@).push(w@));
                }
            },
        }
        i = i + 1;
    }
    if out.len() == 0 {
        (Err(lit("No valid accounts to process")), warnings)
    } else {
        (Ok(out), warnings)
    }
}

} // verus!
