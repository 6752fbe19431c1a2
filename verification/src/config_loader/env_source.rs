//! The environment source: built-in sites, the `PROVIDERS` object and the
//! `ANYROUTER_ACCOUNTS` array.
//!
//! Reading the variables and decoding their JSON happens at the edge; this
//! module receives the decoded entries, each field holding the string value
//! found under that key (`None` when the key is absent or not a string).
use vstd::prelude::*;
use crate::text::{to_lowercase, unicode_lower, str_eq};
use crate::config_loader::types::{RawSite, RawSiteView, RawAccount, RawEmail, default_site, opt_view, lit, copy_opt, email_is_empty};

verus! {

/// The environment configuration source.
pub struct EnvSource;

impl EnvSource {
    pub fn new() -> (r: Self) {
        EnvSource
    }
}

/// One entry of the `PROVIDERS` object.
#[derive(Debug, Clone, Default)]
pub struct EnvProviderEntry {
    /// The key of the entry in the object.
    pub key: String,
    pub name: Option<String>,
    pub domain: Option<String>,
    pub sign_in_path: Option<String>,
    pub login_path: Option<String>,
    pub user_info_path: Option<String>,
    pub tokens_path: Option<String>,
    pub logs_path: Option<String>,
    pub chart_path: Option<String>,
    pub api_user_key: Option<String>,
}

/// One element of the `ANYROUTER_ACCOUNTS` array.
#[derive(Debug, Clone, Default)]
pub struct EnvAccountEntry {
    pub api_user: Option<String>,
    pub provider: Option<String>,
    pub name: Option<String>,
    pub username: Option<String>,
    pub password: Option<String>,
    /// The JSON text of the `cookies` value (`"null"` for null), when the key is present.
    pub cookies_json: Option<String>,
}

/// The two built-in sites: AnyRouter (explicit sign-in) and AgentRouter
/// (signed in by visiting).
pub open spec fn builtin_sites_spec() -> Seq<RawSiteView> {
    seq![
        default_site("AnyRouter"@, "https://anyrouter.top"@, Some("/api/user/sign_in"@)),
        default_site("AgentRouter"@, "https://agentrouter.org"@, None),
    ]
}

/// `o`'s text, or `d` when absent.
pub open spec fn or_default(o: Option<String>, d: Seq<char>) -> Seq<char> {
    match o {
        Some(s) => s@,
        None => d,
    }
}

/// The site a `PROVIDERS` entry describes.
pub open spec fn provider_site(e: EnvProviderEntry) -> RawSiteView {
    let base = default_site(or_default(e.name, e.key@), or_default(e.domain, Seq::empty()), opt_view(e.sign_in_path));
    RawSiteView {
        login_path: or_default(e.login_path, base.login_path),
        user_info_path: or_default(e.user_info_path, base.user_info_path),
        tokens_path: or_default(e.tokens_path, base.tokens_path),
        logs_path: or_default(e.logs_path, base.logs_path),
        chart_path: or_default(e.chart_path, base.chart_path),
        api_user_key: or_default(e.api_user_key, base.api_user_key),
        ..base
    }
}

/// Applies the `PROVIDERS` entries in order: an entry with an empty domain
/// is skipped; otherwise its site replaces any site of the same name and is
/// appended.
pub open spec fn apply_providers(sites: Seq<RawSiteView>, es: Seq<EnvProviderEntry>) -> Seq<RawSiteView>
    decreases es.len(),
{
    if es.len() == 0 {
        sites
    } else {
        let before = apply_providers(sites, es.drop_last());
        let site = provider_site(es.last());
        if site.domain.len() == 0 {
            before
        } else {
            before.filter(|x: RawSiteView| x.name != site.name).push(site)
        }
    }
}

/// The site name an account's provider denotes: the built-in display names
/// for `anyrouter` / `agentrouter` (any case), else the lower-cased name.
pub open spec fn account_site_name(provider: Option<String>) -> Seq<char> {
    let p = or_default(provider, "anyrouter"@);
    let l = unicode_lower(p);
    if l == "agentrouter"@ {
        "AgentRouter"@
    } else if l == "anyrouter"@ {
        "AnyRouter"@
    } else {
        l
    }
}

/// The JSON texts of cookie values that carry nothing.
pub open spec fn blank_cookie_json(t: Seq<char>) -> bool {
    t == "\"\""@ || t == "[]"@ || t == "null"@ || t == "{}"@
}

/// The account an `ANYROUTER_ACCOUNTS` element describes (for a non-empty api_user).
pub open spec fn env_account_matches(a: RawAccount, e: EnvAccountEntry) -> bool {
    &&& Some(a.api_user) == e.api_user
    &&& a.site_name@ == account_site_name(e.provider)
    &&& a.display_name == match e.name {
        Some(n) => if n@.len() > 0 { Some(n) } else { None },
        None => None,
    }
    &&& a.username == e.username
    &&& a.password == e.password
    &&& a.cookies == match e.cookies_json {
        Some(t) => if blank_cookie_json(t@) { None } else { Some(t) },
        None => None,
    }
}

/// The elements with a non-empty api_user, in order.
pub open spec fn kept_entries(es: Seq<EnvAccountEntry>) -> Seq<EnvAccountEntry>
    decreases es.len(),
{
    if es.len() == 0 {
        Seq::empty()
    } else {
        let rest = kept_entries(es.drop_last());
        match es.last().api_user {
            Some(u) => if u@.len() > 0 { rest.push(es.last()) } else { rest },
            None => rest,
        }
    }
}

/// The e-mail settings read from `EMAIL_USER`, `EMAIL_PASS`, `EMAIL_TO`,
/// `EMAIL_SENDER` and `CUSTOM_SMTP_SERVER` (an unset variable reads as empty).
pub open spec fn env_email_spec(fields: RawEmail) -> Option<RawEmail> {
    if email_is_empty(fields) { None } else { Some(fields) }
}

fn opt_or(o: &Option<String>, d: &String) -> (r: String)
    ensures
        r@ == or_default(*o, d@),
{
    match o {
        Some(s) => s.clone(),
        None => d.clone(),
    }
}

fn view_vec(v: &Vec<RawSite>) -> (r: Ghost<Seq<RawSiteView>>)
    ensures
        r@ == v@.map_values(|s: RawSite| s@),
{
    Ghost(v@.map_values(|s: RawSite| s@))
}

impl EnvSource {
    /// The built-in sites.
    pub fn builtin_sites() -> (r: Vec<RawSite>)
        ensures
            r@.map_values(|s: RawSite| s@) == builtin_sites_spec(),
    {
        let a = RawSite::with_defaults("AnyRouter", "https://anyrouter.top", Some(lit("/api/user/sign_in")));
        let b = RawSite::with_defaults("AgentRouter", "https://agentrouter.org", None);
        let mut v: Vec<RawSite> = Vec::new();
        v.push(a);
        v.push(b);
        assert(v@.map_values(|s: RawSite| s@) =~= builtin_sites_spec());
        v
    }

    /// Applies the decoded `PROVIDERS` entries (`None` when the variable is
    /// not a JSON object) to `sites`.
    pub fn parse_providers(entries: Option<Vec<EnvProviderEntry>>, sites: &mut Vec<RawSite>)
        ensures
            final(sites)@.map_values(|s: RawSite| s@) == match entries {
                Some(es) => apply_providers(old(sites)@.map_values(|s: RawSite| s@), es@),
                None => old(sites)@.map_values(|s: RawSite| s@),
            },
    {
        let es = match entries {
            Some(es) => es,
            None => return,
        };
        let ghost start = sites@.map_values(|s: RawSite| s@);
        let mut i: usize = 0;
        while i < es.len()
            invariant
                i <= es.len(),
                sites@.map_values(|s: RawSite| s@) == apply_providers(start, es@.take(i as int)),
            decreases es.len() - i,
        {
            let e = &es[i];
            let ghost prev = sites@.map_values(|s: RawSite| s@);
            let empty = String::new();
            let name = opt_or(&e.name, &e.key);
            let domain = opt_or(&e.domain, &empty);
            assert(es@.take(i + 1).drop_last() =~= es@.take(i as int));
            if domain.as_str().is_empty() {
                i = i + 1;
                continue;
            }
            let mut site = RawSite::with_defaults(name.as_str(), domain.as_str(), copy_opt(&e.sign_in_path));
            site.login_path = opt_or(&e.login_path, &site.login_path);
            site.user_info_path = opt_or(&e.user_info_path, &site.user_info_path);
            site.tokens_path = opt_or(&e.tokens_path, &site.tokens_path);
            site.logs_path = opt_or(&e.logs_path, &site.logs_path);
            site.chart_path = opt_or(&e.chart_path, &site.chart_path);
            site.api_user_key = opt_or(&e.api_user_key, &site.api_user_key);
            assert(site@ == provider_site(es@[i as int]));
            let mut kept: Vec<RawSite> = Vec::new();
            let mut k: usize = 0;
            while k < sites.len()
                invariant
                    k <= sites@.len(),
                    prev == sites@.map_values(|s: RawSite| s@),
                    kept@.map_values(|s: RawSite| s@) == prev.take(k as int).filter(|x: RawSiteView| x.name != site@.name),
                decreases sites@.len() - k,
            {
                proof {
                    reveal_with_fuel(Seq::filter, 1);
                    assert(prev.take(k + 1).drop_last() =~= prev.take(k as int));
                }
                if !str_eq(sites[k].name.as_str(), site.name.as_str()) {
                    kept.push(sites[k].copy());
                    assert(kept@.map_values(|s: RawSite| s@) =~= prev.take(k as int).filter(|x: RawSiteView| x.name != site@.name).push(prev[k as int]));
                }
                k = k + 1;
            }
            assert(prev.take(sites@.len() as int) =~= prev);
            kept.push(site);
            *sites = kept;
            i = i + 1;
        }
        assert(es@.take(es@.len() as int) =~= es@);
    }

    /// The accounts of the decoded `ANYROUTER_ACCOUNTS` array (`None` when
    /// the variable is not a JSON array): elements with an empty api_user
    /// are skipped.
    pub fn parse_accounts(entries: Option<Vec<EnvAccountEntry>>) -> (r: Vec<RawAccount>)
        ensures
            match entries {
                Some(es) => r@.len() == kept_entries(es@).len()
                    && forall|i: int| 0 <= i < r@.len() ==> env_account_matches(#[trigger] r@[i], kept_entries(es@)[i]),
                None => r@.len() == 0,
            },
    {
        let es = match entries {
            Some(es) => es,
            None => return Vec::new(),
        };
        let mut out: Vec<RawAccount> = Vec::new();
        let mut i: usize = 0;
        while i < es.len()
            invariant
                i <= es.len(),
                out@.len() == kept_entries(es@.take(i as int)).len(),
                forall|j: int| 0 <= j < out@.len() ==> env_account_matches(#[trigger] out@[j], kept_entries(es@.take(i as int))[j]),
            decreases es.len() - i,
        {
            let e = &es[i];
            assert(es@.take(i + 1).drop_last() =~= es@.take(i as int));
            let api_user = match &e.api_user {
                Some(u) => u.clone(),
                None => String::new(),
            };
            if api_user.as_str().is_empty() {
                i = i + 1;
                continue;
            }
            let anyrouter = lit("anyrouter");
            let provider = opt_or(&e.provider, &anyrouter);
            let lowered = to_lowercase(provider.as_str());
            let site_name = if str_eq(lowered.as_str(), "agentrouter") {
                lit("AgentRouter")
            } else if str_eq(lowered.as_str(), "anyrouter") {
                lit("AnyRouter")
            } else {
                lowered
            };
            let display_name = match &e.name {
                Some(n) => if n.as_str().is_empty() { None } else { Some(n.clone()) },
                None => None,
            };
            let cookies = match &e.cookies_json {
                Some(t) => {
                    if str_eq(t.as_str(), "\"\"") || str_eq(t.as_str(), "[]") || str_eq(t.as_str(), "null")
                        || str_eq(t.as_str(), "{}") {
                        None
                    } else {
                        Some(t.clone())
                    }
                },
                None => None,
            };
            let a = RawAccount {
                site_name,
                api_user,
                display_name,
                cookies,
                username: copy_opt(&e.username),
                password: copy_opt(&e.password),
            };
            assert(env_account_matches(a, es@[i as int]));
            out.push(a);
            i = i + 1;
        }
        assert(es@.take(es@.len() as int) =~= es@);
        out
    }

    /// The e-mail settings read from the environment; `None` when user,
    /// password and recipient are all empty.
    pub fn parse_email(fields: RawEmail) -> (r: Option<RawEmail>)
        ensures
            r == env_email_spec(fields),
    {
        if fields.is_empty() { None } else { Some(fields) }
    }
}

impl crate::config_loader::source::ConfigSource for EnvSource {
    fn kind(&self) -> (r: crate::config_loader::source::SourceKind)
        ensures
            r == crate::config_loader::source::SourceKind::Env,
    {
        crate::config_loader::source::SourceKind::Env
    }
}

} // verus!
