//! The configuration-file source.
//!
//! The file is read and its JSON decoded at the edge; this module maps the
//! decoded records to normalised ones, filling in the default paths.
use vstd::prelude::*;
use std::path::PathBuf;
use crate::config_loader::types::{RawSite, RawSiteView, RawAccount, RawEmail, RawConfig, lit, copy_opt, email_is_empty};
use crate::config_loader::env_source::or_default;

verus! {

#[verifier::external_type_specification]
#[verifier::external_body]
pub struct ExPathBuf(PathBuf);

/// A site as written in the file; absent paths take the new-api defaults.
#[derive(Debug, Clone, Default)]
pub struct FileSite {
    pub name: String,
    pub domain: String,
    pub login_path: Option<String>,
    pub sign_in_path: Option<String>,
    pub user_info_path: Option<String>,
    pub tokens_path: Option<String>,
    pub logs_path: Option<String>,
    pub chart_path: Option<String>,
    pub api_user_key: Option<String>,
}

/// An account as written in the file.
#[derive(Debug, Clone, Default)]
pub struct FileAccount {
    pub site_name: String,
    pub api_user: String,
    pub name: Option<String>,
    pub cookies: Option<String>,
    pub username: Option<String>,
    pub password: Option<String>,
}

/// The decoded configuration file.
#[derive(Debug, Clone, Default)]
pub struct FileConfig {
    pub sites: Vec<FileSite>,
    pub accounts: Vec<FileAccount>,
    pub email: Option<RawEmail>,
}

/// The configuration file source.
pub struct FileSource {
    pub path: PathBuf,
}

/// The normalised site of a file site.
pub open spec fn file_site_view(s: FileSite) -> RawSiteView {
    RawSiteView {
        name: s.name@,
        domain: s.domain@,
        login_path: or_default(s.login_path, "/login"@),
        sign_in_path: match s.sign_in_path { Some(p) => Some(p@), None => None },
        user_info_path: or_default(s.user_info_path, "/api/user/self"@),
        tokens_path: or_default(s.tokens_path, "/api/token/"@),
        logs_path: or_default(s.logs_path, "/api/log/self"@),
        chart_path: or_default(s.chart_path, "/api/data/self"@),
        api_user_key: or_default(s.api_user_key, "new-api-user"@),
    }
}

/// The file accounts with a non-empty api_user, in order.
pub open spec fn kept_file_accounts(a: Seq<FileAccount>) -> Seq<FileAccount>
    decreases a.len(),
{
    if a.len() == 0 {
        Seq::empty()
    } else {
        let rest = kept_file_accounts(a.drop_last());
        if a.last().api_user@.len() > 0 { rest.push(a.last()) } else { rest }
    }
}

/// The normalised account of a file account.
pub open spec fn file_account_matches(r: RawAccount, a: FileAccount) -> bool {
    &&& r.site_name == a.site_name
    &&& r.api_user == a.api_user
    &&& r.display_name == a.name
    &&& r.cookies == a.cookies
    &&& r.username == a.username
    &&& r.password == a.password
}

/// What loading yields for a decoded file.
pub open spec fn file_config_loaded(r: RawConfig, f: FileConfig) -> bool {
    &&& r.sites@.map_values(|s: RawSite| s@) == f.sites@.map_values(|s: FileSite| file_site_view(s))
    &&& r.accounts@.len() == kept_file_accounts(f.accounts@).len()
    &&& forall|i: int| 0 <= i < r.accounts@.len() ==> file_account_matches(#[trigger] r.accounts@[i], kept_file_accounts(f.accounts@)[i])
    &&& r.email == match f.email {
        Some(e) => if email_is_empty(e) { None } else { Some(e) },
        None => None,
    }
}

fn or_lit(o: &Option<String>, d: &str) -> (r: String)
    ensures
        r@ == or_default(*o, d@),
{
    match o {
        Some(s) => s.clone(),
        None => lit(d),
    }
}

impl FileSource {
    pub fn new(path: PathBuf) -> (r: Self)
        ensures
            r.path == path,
    {
        FileSource { path }
    }

    /// Maps the outcome of reading the file: `None` when the file does not
    /// exist (an empty source), `Some(Err(..))` when it could not be read or
    /// decoded (the error is passed on), else the decoded file.
    pub fn load(&self, file: Option<Result<FileConfig, String>>) -> (r: Result<RawConfig, String>)
        ensures
            match file {
                None => r matches Ok(c) && c.sites@.len() == 0 && c.accounts@.len() == 0 && c.email is None,
                Some(Err(e)) => r == Err::<RawConfig, String>(e),
                Some(Ok(f)) => r matches Ok(c) && file_config_loaded(c, f),
            },
    {
        match file {
            None => Ok(RawConfig { sites: Vec::new(), accounts: Vec::new(), email: None }),
            Some(Err(e)) => Err(e),
            Some(Ok(f)) => Ok(load_file_config(&f)),
        }
    }
}

fn load_file_config(f: &FileConfig) -> (r: RawConfig)
    ensures
        file_config_loaded(r, *f),
{
    let mut sites: Vec<RawSite> = Vec::new();
    let mut i: usize = 0;
    while i < f.sites.len()
        invariant
            i <= f.sites@.len(),
            sites@.map_values(|s: RawSite| s@) == f.sites@.take(i as int).map_values(|s: FileSite| file_site_view(s)),
        decreases f.sites@.len() - i,
    {
        let s = &f.sites[i];
        let site = RawSite {
            name: s.name.clone(),
            domain: s.domain.clone(),
            login_path: or_lit(&s.login_path, "/login"),
            sign_in_path: copy_opt(&s.sign_in_path),
            user_info_path: or_lit(&s.user_info_path, "/api/user/self"),
            tokens_path: or_lit(&s.tokens_path, "/api/token/"),
            logs_path: or_lit(&s.logs_path, "/api/log/self"),
            chart_path: or_lit(&s.chart_path, "/api/data/self"),
            api_user_key: or_lit(&s.api_user_key, "new-api-user"),
        };
        assert(site@ == file_site_view(f.sites@[i as int]));
        let ghost before = sites@;
        sites.push(site);
        assert(sites@.map_values(|s: RawSite| s@) =~= before.map_values(|s: RawSite| s@).push(site@));
        i = i + 1;
        assert(sites@.map_values(|s: RawSite| s@) =~= f.sites@.take(i as int).map_values(|s: FileSite| file_site_view(s)));
    }
    assert(f.sites@.take(f.sites@.len() as int) =~= f.sites@);
    let mut accounts: Vec<RawAccount> = Vec::new();
    let mut j: usize = 0;
    while j < f.accounts.len()
        invariant
            j <= f.accounts@.len(),
            accounts@.len() == kept_file_accounts(f.accounts@.take(j as int)).len(),
            forall|k: int| 0 <= k < accounts@.len() ==> file_account_matches(#[trigger] accounts@[k], kept_file_accounts(f.accounts@.take(j as int))[k]),
        decreases f.accounts@.len() - j,
    {
        let a = &f.accounts[j];
        assert(f.accounts@.take(j + 1).drop_last() =~= f.accounts@.take(j as int));
        if !a.api_user.as_str().is_empty() {
            accounts.push(RawAccount {
                site_name: a.site_name.clone(),
                api_user: a.api_user.clone(),
                display_name: copy_opt(&a.name),
                cookies: copy_opt(&a.cookies),
                username: copy_opt(&a.username),
                password: copy_opt(&a.password),
            });
        }
        j = j + 1;
    }
    assert(f.accounts@.take(f.accounts@.len() as int) =~= f.accounts@);
    let email = match &f.email {
        Some(e) => if e.is_empty() { None } else { Some(e.copy()) },
        None => None,
    };
    RawConfig { sites, accounts, email }
}

impl crate::config_loader::source::ConfigSource for FileSource {
    fn kind(&self) -> (r: crate::config_loader::source::SourceKind)
        ensures
            r == crate::config_loader::source::SourceKind::File,
    {
        crate::config_loader::source::SourceKind::File
    }
}

} // verus!
