//! Normalised configuration records shared by every configuration source
//! (they carry no database id, so records from different sources can be
//! matched by their natural keys).
use vstd::prelude::*;

verus! {

/// A site (a provider of the command-line runner).
#[derive(Debug, Clone, PartialEq)]
pub struct RawSite {
    pub name: String,
    pub domain: String,
    pub login_path: String,
    pub sign_in_path: Option<String>,
    pub user_info_path: String,
    pub tokens_path: String,
    pub logs_path: String,
    pub chart_path: String,
    pub api_user_key: String,
}

/// The plain contents of a `RawSite`.
pub struct RawSiteView {
    pub name: Seq<char>,
    pub domain: Seq<char>,
    pub login_path: Seq<char>,
    pub sign_in_path: Option<Seq<char>>,
    pub user_info_path: Seq<char>,
    pub tokens_path: Seq<char>,
    pub logs_path: Seq<char>,
    pub chart_path: Seq<char>,
    pub api_user_key: Seq<char>,
}

/// The view of an optional text.
pub open spec fn opt_view(o: Option<String>) -> Option<Seq<char>> {
    match o {
        Some(s) => Some(s@),
        None => None,
    }
}

impl View for RawSite {
    type V = RawSiteView;

    open spec fn view(&self) -> RawSiteView {
        RawSiteView {
            name: self.name@,
            domain: self.domain@,
            login_path: self.login_path@,
            sign_in_path: opt_view(self.sign_in_path),
            user_info_path: self.user_info_path@,
            tokens_path: self.tokens_path@,
            logs_path: self.logs_path@,
            chart_path: self.chart_path@,
            api_user_key: self.api_user_key@,
        }
    }
}

/// A site with the given name, domain and sign-in path and the new-api
/// default paths.
pub open spec fn default_site(name: Seq<char>, domain: Seq<char>, sign_in_path: Option<Seq<char>>) -> RawSiteView {
    RawSiteView {
        name,
        domain,
        login_path: "/login"@,
        sign_in_path,
        user_info_path: "/api/user/self"@,
        tokens_path: "/api/token/"@,
        logs_path: "/api/log/self"@,
        chart_path: "/api/data/self"@,
        api_user_key: "new-api-user"@,
    }
}

/// The new-api path conventions that `RawSite::with_defaults` fills in.
pub open spec fn site_has_default_paths(s: RawSite) -> bool {
    &&& s.login_path@ == "/login"@
    &&& s.user_info_path@ == "/api/user/self"@
    &&& s.tokens_path@ == "/api/token/"@
    &&& s.logs_path@ == "/api/log/self"@
    &&& s.chart_path@ == "/api/data/self"@
    &&& s.api_user_key@ == "new-api-user"@
}

pub(crate) fn lit(s: &str) -> (r: String)
    ensures
        r@ == s@,
{
    s.to_owned()
}

pub(crate) fn copy_opt(s: &Option<String>) -> (r: Option<String>)
    ensures
        r == *s,
{
    match s {
        Some(x) => Some(x.clone()),
        None => None,
    }
}

impl RawSite {
    /// A site with the new-api default paths; only name, domain and the
    /// sign-in path are given.
    pub fn with_defaults(name: &str, domain: &str, sign_in_path: Option<String>) -> (r: Self)
        ensures
            r.name@ == name@,
            r.domain@ == domain@,
            r.sign_in_path == sign_in_path,
            site_has_default_paths(r),
            r@ == default_site(name@, domain@, opt_view(sign_in_path)),
    {
        RawSite {
            name: lit(name),
            domain: lit(domain),
            login_path: lit("/login"),
            sign_in_path,
            user_info_path: lit("/api/user/self"),
            tokens_path: lit("/api/token/"),
            logs_path: lit("/api/log/self"),
            chart_path: lit("/api/data/self"),
            api_user_key: lit("new-api-user"),
        }
    }

    /// A field-for-field copy.
    pub fn copy(&self) -> (r: Self)
        ensures
            r == *self,
    {
        RawSite {
            name: self.name.clone(),
            domain: self.domain.clone(),
            login_path: self.login_path.clone(),
            sign_in_path: copy_opt(&self.sign_in_path),
            user_info_path: self.user_info_path.clone(),
            tokens_path: self.tokens_path.clone(),
            logs_path: self.logs_path.clone(),
            chart_path: self.chart_path.clone(),
            api_user_key: self.api_user_key.clone(),
        }
    }
}

/// Account credentials.
#[derive(Debug, Clone, PartialEq)]
pub struct RawAccount {
    pub site_name: String,
    pub api_user: String,
    pub display_name: Option<String>,
    pub cookies: Option<String>,
    pub username: Option<String>,
    pub password: Option<String>,
}

impl RawAccount {
    /// The de-duplication key: (site name, api_user).
    pub fn key(&self) -> (r: (String, String))
        ensures
            r.0 == self.site_name,
            r.1 == self.api_user,
    {
        (self.site_name.clone(), self.api_user.clone())
    }

    /// A field-for-field copy.
    pub fn copy(&self) -> (r: Self)
        ensures
            r == *self,
    {
        RawAccount {
            site_name: self.site_name.clone(),
            api_user: self.api_user.clone(),
            display_name: copy_opt(&self.display_name),
            cookies: copy_opt(&self.cookies),
            username: copy_opt(&self.username),
            password: copy_opt(&self.password),
        }
    }
}

/// The e-mail notification settings (a single record).
#[derive(Debug, Clone, Default, PartialEq)]
pub struct RawEmail {
    pub user: String,
    pub pass: String,
    pub to: String,
    pub sender: String,
    pub smtp_server: String,
}

/// `RawEmail::is_empty`: user, password and recipient are all empty.
pub open spec fn email_is_empty(e: RawEmail) -> bool {
    e.user@.len() == 0 && e.pass@.len() == 0 && e.to@.len() == 0
}

/// Field-level overlay: each non-empty field of `later` replaces that of `base`.
pub open spec fn overlay_spec(base: RawEmail, later: RawEmail) -> RawEmail {
    RawEmail {
        user: if later.user@.len() == 0 { base.user } else { later.user },
        pass: if later.pass@.len() == 0 { base.pass } else { later.pass },
        to: if later.to@.len() == 0 { base.to } else { later.to },
        sender: if later.sender@.len() == 0 { base.sender } else { later.sender },
        smtp_server: if later.smtp_server@.len() == 0 { base.smtp_server } else { later.smtp_server },
    }
}

fn take_if_set(field: &mut String, other: &String)
    ensures
        *final(field) == if other@.len() == 0 { *old(field) } else { *other },
{
    if !other.as_str().is_empty() {
        *field = other.clone();
    }
}

impl RawEmail {
    pub fn is_empty(&self) -> (r: bool)
        ensures
            r == email_is_empty(*self),
    {
        self.user.as_str().is_empty() && self.pass.as_str().is_empty() && self.to.as_str().is_empty()
    }

    /// Overwrites each field of `self` with the corresponding field of
    /// `other` when that field is not empty.
    pub fn overlay(&mut self, other: &RawEmail)
        ensures
            *final(self) == overlay_spec(*old(self), *other),
    {
        take_if_set(&mut self.user, &other.user);
        take_if_set(&mut self.pass, &other.pass);
        take_if_set(&mut self.to, &other.to);
        take_if_set(&mut self.sender, &other.sender);
        take_if_set(&mut self.smtp_server, &other.smtp_server);
    }

    /// A field-for-field copy.
    pub fn copy(&self) -> (r: Self)
        ensures
            r == *self,
    {
        RawEmail {
            user: self.user.clone(),
            pass: self.pass.clone(),
            to: self.to.clone(),
            sender: self.sender.clone(),
            smtp_server: self.smtp_server.clone(),
        }
    }
}

/// What one source yields, and what merging yields.
#[derive(Debug, Clone, Default, PartialEq)]
pub struct RawConfig {
    pub sites: Vec<RawSite>,
    pub accounts: Vec<RawAccount>,
    pub email: Option<RawEmail>,
}

/// Overlaying a record that sets every field is the same as taking it.
pub proof fn law_overlay_full_replaces(base: RawEmail, later: RawEmail)
    requires
        later.user@.len() > 0,
        later.pass@.len() > 0,
        later.to@.len() > 0,
        later.sender@.len() > 0,
        later.smtp_server@.len() > 0,
    ensures
        overlay_spec(base, later) == later,
{
}

/// Overlaying the empty record changes nothing, and overlaying twice with
/// the same record is the same as overlaying once.
pub proof fn law_overlay_identity_and_idempotent(base: RawEmail, later: RawEmail, blank: RawEmail)
    requires
        blank.user@.len() == 0,
        blank.pass@.len() == 0,
        blank.to@.len() == 0,
        blank.sender@.len() == 0,
        blank.smtp_server@.len() == 0,
    ensures
        overlay_spec(base, blank) == base,
        overlay_spec(overlay_spec(base, later), later) == overlay_spec(base, later),
{
}

} // verus!
