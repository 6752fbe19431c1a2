//! What the site and account dialogs of the desktop front end make of the
//! text typed into them: every field is trimmed, the required ones are
//! checked, the optional site paths fall back to the new-api conventions and
//! an account keeps only the credentials of the chosen kind.
use vstd::prelude::*;
use crate::text::{trim, starts_with, trim_str, str_starts_with, owned};
use crate::models::{SiteInput, AccountInput};
use crate::storage;

verus! {

/// The text of the site dialog's fields, as typed.
#[derive(Debug, Clone)]
pub struct SiteFields {
    pub name: String,
    pub domain: String,
    pub login_path: String,
    /// Empty for a site that checks in on its own when the user page is read.
    pub sign_in_path: String,
    pub user_info_path: String,
    pub tokens_path: String,
    pub logs_path: String,
    pub chart_path: String,
    pub api_user_key: String,
}

/// The text of the account dialog's fields, as typed.
#[derive(Debug, Clone)]
pub struct AccountFields {
    pub name: String,
    pub api_user: String,
    pub cookie: String,
    pub username: String,
    pub password: String,
}

/// How an account signs in: with a pasted cookie or with a login.
#[derive(Debug, Clone, Copy, PartialEq, Eq, Structural)]
pub enum CredMethod {
    Cookie,
    Password,
}

/// Why a dialog refuses to save.
#[derive(Debug, Clone, Copy, PartialEq, Eq, Structural)]
pub enum FormError {
    /// The site's name or domain is empty.
    SiteRequired,
    /// The domain is not an `http://` or `https://` address.
    DomainScheme,
    /// The account's name or API user is empty.
    AccountRequired,
    /// The cookie method was chosen without a cookie.
    CookieRequired,
    /// The login method was chosen without both user name and password.
    LoginRequired,
}

/// The message the dialog shows for an error.
pub open spec fn form_error_text(e: FormError) -> Seq<char> {
    match e {
        FormError::SiteRequired => "站点名称和域名为必填项"@,
        FormError::DomainScheme => "域名必须以 http:// 或 https:// 开头"@,
        FormError::AccountRequired => "账户名称和 API 用户标识为必填项"@,
        FormError::CookieRequired => "请填写 Cookie"@,
        FormError::LoginRequired => "请同时填写用户名和密码"@,
    }
}

impl FormError {
    /// The message shown under the dialog's fields.
    pub fn message(&self) -> (r: String)
        ensures
            r@ == form_error_text(*self),
    {
        match self {
            FormError::SiteRequired => owned("站点名称和域名为必填项"),
            FormError::DomainScheme => owned("域名必须以 http:// 或 https:// 开头"),
            FormError::AccountRequired => owned("账户名称和 API 用户标识为必填项"),
            FormError::CookieRequired => owned("请填写 Cookie"),
            FormError::LoginRequired => owned("请同时填写用户名和密码"),
        }
    }
}

/// The trimmed text, or `fallback` where nothing but blanks was typed.
pub open spec fn or_fallback(value: Seq<char>, fallback: Seq<char>) -> Seq<char> {
    if trim(value).len() == 0 {
        fallback
    } else {
        trim(value)
    }
}

/// Whether an address names the `http` or `https` scheme.
pub open spec fn http_address(d: Seq<char>) -> bool {
    starts_with(d, "http://"@) || starts_with(d, "https://"@)
}

/// What the site dialog saves for its fields, or why it refuses.
pub open spec fn site_outcome(f: SiteFields) -> Result<(), FormError> {
    if trim(f.name@).len() == 0 || trim(f.domain@).len() == 0 {
        Err(FormError::SiteRequired)
    } else if !http_address(trim(f.domain@)) {
        Err(FormError::DomainScheme)
    } else {
        Ok(())
    }
}

/// Whether a saved site holds exactly what the fields give: the name and
/// domain trimmed, an optional sign-in path only where one was typed, and
/// the default path or header name for each field left blank.
pub open spec fn site_matches_fields(s: SiteInput, f: SiteFields) -> bool {
    &&& s.name@ == trim(f.name@)
    &&& s.domain@ == trim(f.domain@)
    &&& s.login_path@ == or_fallback(f.login_path@, "/login"@)
    &&& (trim(f.sign_in_path@).len() == 0 ==> s.sign_in_path is None)
    &&& (trim(f.sign_in_path@).len() != 0 ==> (s.sign_in_path matches Some(p) && p@ == trim(f.sign_in_path@)))
    &&& s.user_info_path@ == or_fallback(f.user_info_path@, "/api/user/self"@)
    &&& s.tokens_path@ == or_fallback(f.tokens_path@, "/api/token/"@)
    &&& s.logs_path@ == or_fallback(f.logs_path@, "/api/log/self"@)
    &&& s.chart_path@ == or_fallback(f.chart_path@, "/api/data/self"@)
    &&& s.api_user_key@ == or_fallback(f.api_user_key@, "new-api-user"@)
}

/// The trimmed text, or `fallback` where it is blank.
pub fn nonempty_or(value: &str, fallback: &str) -> (r: String)
    ensures
        r@ == or_fallback(value@, fallback@),
{
    let t = trim_str(value);
    if t.as_str().is_empty() {
        owned(fallback)
    } else {
        t
    }
}

/// The site the dialog saves, or the error it shows.
pub fn site_from_form(f: &SiteFields) -> (r: Result<SiteInput, FormError>)
    ensures
        r is Ok <==> site_outcome(*f) is Ok,
        r matches Err(e) ==> site_outcome(*f) == Err::<(), FormError>(e),
        r matches Ok(s) ==> site_matches_fields(s, *f),
{
    let name = trim_str(f.name.as_str());
    let domain = trim_str(f.domain.as_str());
    if name.as_str().is_empty() || domain.as_str().is_empty() {
        return Err(FormError::SiteRequired);
    }
    if !(str_starts_with(domain.as_str(), "http://") || str_starts_with(domain.as_str(), "https://")) {
        return Err(FormError::DomainScheme);
    }
    let sign_in = trim_str(f.sign_in_path.as_str());
    let sign_in_path = if sign_in.as_str().is_empty() { None } else { Some(sign_in) };
    Ok(SiteInput {
        name,
        domain,
        login_path: nonempty_or(f.login_path.as_str(), "/login"),
        sign_in_path,
        user_info_path: nonempty_or(f.user_info_path.as_str(), "/api/user/self"),
        tokens_path: nonempty_or(f.tokens_path.as_str(), "/api/token/"),
        logs_path: nonempty_or(f.logs_path.as_str(), "/api/log/self"),
        chart_path: nonempty_or(f.chart_path.as_str(), "/api/data/self"),
        api_user_key: nonempty_or(f.api_user_key.as_str(), "new-api-user"),
    })
}

/// What the account dialog saves for its fields and method, or why it refuses.
pub open spec fn account_outcome(f: AccountFields, method: CredMethod) -> Result<(), FormError> {
    if trim(f.name@).len() == 0 || trim(f.api_user@).len() == 0 {
        Err(FormError::AccountRequired)
    } else {
        match method {
            CredMethod::Cookie => if trim(f.cookie@).len() == 0 {
                Err(FormError::CookieRequired)
            } else {
                Ok(())
            },
            CredMethod::Password => if trim(f.username@).len() == 0 || trim(f.password@).len() == 0 {
                Err(FormError::LoginRequired)
            } else {
                Ok(())
            },
        }
    }
}

/// Whether a saved account holds exactly what the fields give: the trimmed
/// name and API user, and the trimmed credentials of the chosen method only.
pub open spec fn account_matches_fields(a: AccountInput, site_id: i64, f: AccountFields, method: CredMethod) -> bool {
    &&& a.site_id == site_id
    &&& a.name@ == trim(f.name@)
    &&& a.api_user@ == trim(f.api_user@)
    &&& match method {
        CredMethod::Cookie => {
            &&& a.cookies matches Some(c) && c@ == trim(f.cookie@)
            &&& a.username is None
            &&& a.password is None
        },
        CredMethod::Password => {
            &&& a.cookies is None
            &&& a.username matches Some(u) && u@ == trim(f.username@)
            &&& a.password matches Some(p) && p@ == trim(f.password@)
        },
    }
}

/// The account the dialog saves under `site_id`, or the error it shows.
pub fn account_from_form(site_id: i64, f: &AccountFields, method: CredMethod) -> (r: Result<AccountInput, FormError>)
    ensures
        r is Ok <==> account_outcome(*f, method) is Ok,
        r matches Err(e) ==> account_outcome(*f, method) == Err::<(), FormError>(e),
        r matches Ok(a) ==> account_matches_fields(a, site_id, *f, method),
{
    let name = trim_str(f.name.as_str());
    let api_user = trim_str(f.api_user.as_str());
    if name.as_str().is_empty() || api_user.as_str().is_empty() {
        return Err(FormError::AccountRequired);
    }
    match method {
        CredMethod::Cookie => {
            let cookie = trim_str(f.cookie.as_str());
            if cookie.as_str().is_empty() {
                return Err(FormError::CookieRequired);
            }
            Ok(AccountInput { site_id, name, api_user, username: None, password: None, cookies: Some(cookie) })
        },
        CredMethod::Password => {
            let username = trim_str(f.username.as_str());
            let password = trim_str(f.password.as_str());
            if username.as_str().is_empty() || password.as_str().is_empty() {
                return Err(FormError::LoginRequired);
            }
            Ok(AccountInput { site_id, name, api_user, username: Some(username), password: Some(password), cookies: None })
        },
    }
}


/// The notice the first desktop front end shows for a refused site.
pub open spec fn site_notice_text(e: FormError) -> Seq<char> {
    match e {
        FormError::DomainScheme => "域名需以 http:// 或 https:// 开头"@,
        _ => "名称与域名为必填"@,
    }
}

/// The site dialog of the first desktop front end: the same checks and
/// defaults as `site_from_form`, producing a database input, or the notice
/// it shows.
pub fn storage_site_from_form(f: &SiteFields) -> (r: Result<storage::SiteInput, String>)
    ensures
        r is Ok <==> site_outcome(*f) is Ok,
        r matches Err(m) ==> (site_outcome(*f) matches Err(e) && m@ == site_notice_text(e)),
        r matches Ok(s) ==> {
            &&& s.name@ == trim(f.name@)
            &&& s.domain@ == trim(f.domain@)
            &&& s.login_path@ == or_fallback(f.login_path@, "/login"@)
            &&& (trim(f.sign_in_path@).len() == 0 ==> s.sign_in_path is None)
            &&& (trim(f.sign_in_path@).len() != 0 ==> (s.sign_in_path matches Some(p) && p@ == trim(f.sign_in_path@)))
            &&& s.user_info_path@ == or_fallback(f.user_info_path@, "/api/user/self"@)
            &&& s.tokens_path@ == or_fallback(f.tokens_path@, "/api/token/"@)
            &&& s.logs_path@ == or_fallback(f.logs_path@, "/api/log/self"@)
            &&& s.chart_path@ == or_fallback(f.chart_path@, "/api/data/self"@)
            &&& s.api_user_key@ == or_fallback(f.api_user_key@, "new-api-user"@)
        },
{
    match site_from_form(f) {
        Ok(s) => Ok(storage::SiteInput {
            name: s.name,
            domain: s.domain,
            login_path: s.login_path,
            sign_in_path: s.sign_in_path,
            user_info_path: s.user_info_path,
            tokens_path: s.tokens_path,
            logs_path: s.logs_path,
            chart_path: s.chart_path,
            api_user_key: s.api_user_key,
        }),
        Err(FormError::DomainScheme) => Err(owned("域名需以 http:// 或 https:// 开头")),
        Err(_) => Err(owned("名称与域名为必填")),
    }
}


/// The user name the first front end's account dialog saves: the typed one
/// (trimmed) when not blank, else the one found in the pasted cookies.
pub open spec fn dialog_username(username: Seq<char>, cookie_user: Option<Seq<char>>) -> Option<Seq<char>> {
    if trim(username).len() > 0 { Some(trim(username)) } else { cookie_user }
}

/// The password it saves: the typed one (as typed) when not empty, else the
/// one found in the pasted cookies.
pub open spec fn dialog_password(password: Seq<char>, cookie_pass: Option<Seq<char>>) -> Option<Seq<char>> {
    if password.len() > 0 { Some(password) } else { cookie_pass }
}

/// Why the first front end's account dialog refuses to save, if it does.
pub open spec fn dialog_account_refusal(
    name: Seq<char>,
    api_user: Seq<char>,
    username: Seq<char>,
    password: Seq<char>,
    cookies_json: Option<Seq<char>>,
    cookie_user: Option<Seq<char>>,
    cookie_pass: Option<Seq<char>>,
) -> Option<Seq<char>> {
    if trim(name).len() == 0 || trim(api_user).len() == 0 {
        Some("名称与 API 用户标识为必填"@)
    } else if cookies_json is None && dialog_username(username, cookie_user) is None
        && dialog_password(password, cookie_pass) is None {
        Some("请粘贴 Cookie 或填写用户名+密码"@)
    } else {
        None
    }
}

/// The account the first front end's account dialog saves under `site_id`,
/// or the notice it shows.  `cookies_json` is the JSON text of the cookie
/// entries read from the pasted cookie text (none when it held none), with
/// the user name and password found there; `now` is the current time, the
/// issue time of stored cookies.
pub fn account_input_from_dialog(
    site_id: i64,
    name: &str,
    api_user: &str,
    username: &str,
    password: &str,
    cookies_json: Option<String>,
    cookie_user: Option<String>,
    cookie_pass: Option<String>,
    now: String,
) -> (r: Result<storage::AccountInput, String>)
    ensures
        ({
            let refusal = dialog_account_refusal(
                name@,
                api_user@,
                username@,
                password@,
                crate::config::opt_text(cookies_json),
                crate::config::opt_text(cookie_user),
                crate::config::opt_text(cookie_pass),
            );
            &&& r is Err <==> refusal is Some
            &&& r matches Err(m) ==> refusal == Some(m@)
            &&& r matches Ok(a) ==> {
                &&& a.site_id == site_id
                &&& a.name@ == trim(name@)
                &&& a.api_user@ == trim(api_user@)
                &&& crate::config::opt_text(a.username) == dialog_username(username@, crate::config::opt_text(cookie_user))
                &&& crate::config::opt_text(a.password) == dialog_password(password@, crate::config::opt_text(cookie_pass))
                &&& a.cookies_json == cookies_json
                &&& (cookies_json is Some ==> a.cookie_issued_at == Some(now))
                &&& (cookies_json is None ==> a.cookie_issued_at is None)
                &&& a.cookie_expires_at is None
            }
        }),
{
    let n = trim_str(name);
    let u = trim_str(api_user);
    if n.as_str().is_empty() || u.as_str().is_empty() {
        return Err(owned("名称与 API 用户标识为必填"));
    }
    let typed_user = trim_str(username);
    let user = if !typed_user.as_str().is_empty() { Some(typed_user) } else { cookie_user };
    let pass = if !password.is_empty() { Some(owned(password)) } else { cookie_pass };
    if cookies_json.is_none() && user.is_none() && pass.is_none() {
        return Err(owned("请粘贴 Cookie 或填写用户名+密码"));
    }
    let issued = if cookies_json.is_some() { Some(now) } else { None };
    Ok(storage::AccountInput {
        site_id,
        name: n,
        api_user: u,
        username: user,
        password: pass,
        cookies_json,
        cookie_issued_at: issued,
        cookie_expires_at: None,
    })
}

} // verus!
