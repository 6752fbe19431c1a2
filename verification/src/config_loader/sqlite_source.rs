//! The database source.  The rows are read at the edge; this module turns
//! them into normalised records.
use vstd::prelude::*;
use std::path::PathBuf;
use crate::models::{Site, Account};
use crate::config_loader::types::{RawSite, RawSiteView, RawAccount, RawConfig, copy_opt};

verus! {

/// The database source.
pub struct SqliteSource {
    pub db_path: PathBuf,
}

/// The normalised site of a site row.
pub open spec fn row_site_view(s: Site) -> RawSiteView {
    RawSiteView {
        name: s.name@,
        domain: s.domain@,
        login_path: s.login_path@,
        sign_in_path: match s.sign_in_path { Some(p) => Some(p@), None => None },
        user_info_path: s.user_info_path@,
        tokens_path: s.tokens_path@,
        logs_path: s.logs_path@,
        chart_path: s.chart_path@,
        api_user_key: s.api_user_key@,
    }
}

/// The normalised account of an account row of site `s`.
pub open spec fn row_account_matches(r: RawAccount, s: Site, a: Account) -> bool {
    &&& r.site_name == s.name
    &&& r.api_user == a.api_user
    &&& r.display_name == Some(a.name)
    &&& r.cookies == a.cookies
    &&& r.username == a.username
    &&& r.password == a.password
}

/// The account rows of all sites, site after site, each with its site.
pub open spec fn rows_accounts(rows: Seq<(Site, Vec<Account>)>) -> Seq<(Site, Account)>
    decreases rows.len(),
{
    if rows.len() == 0 {
        Seq::empty()
    } else {
        let last = rows.last();
        rows_accounts(rows.drop_last()) + last.1@.map_values(|a: Account| (last.0, a))
    }
}

impl SqliteSource {
    pub fn new(db_path: PathBuf) -> (r: Self)
        ensures
            r.db_path == db_path,
    {
        SqliteSource { db_path }
    }

    /// Turns the rows read from the database (each site with its
    /// accounts, in id order) into normalised records; an error reading the
    /// database is passed on.  The database holds no e-mail settings.
    pub fn load(&self, rows: Result<Vec<(Site, Vec<Account>)>, String>) -> (r: Result<RawConfig, String>)
        ensures
            match rows {
                Err(e) => r == Err::<RawConfig, String>(e),
                Ok(rs) => r matches Ok(c) && {
                    &&& c.sites@.map_values(|s: RawSite| s@) == rs@.map_values(|p: (Site, Vec<Account>)| row_site_view(p.0))
                    &&& c.accounts@.len() == rows_accounts(rs@).len()
                    &&& forall|i: int| 0 <= i < c.accounts@.len() ==> row_account_matches(
                        #[trigger] c.accounts@[i], rows_accounts(rs@)[i].0, rows_accounts(rs@)[i].1)
                    &&& c.email is None
                },
            },
    {
        let rs = match rows {
            Err(e) => return Err(e),
            Ok(rs) => rs,
        };
        let mut sites: Vec<RawSite> = Vec::new();
        let mut accounts: Vec<RawAccount> = Vec::new();
        let mut i: usize = 0;
        while i < rs.len()
            invariant
                i <= rs@.len(),
                sites@.map_values(|s: RawSite| s@) == rs@.take(i as int).map_values(|p: (Site, Vec<Account>)| row_site_view(p.0)),
                accounts@.len() == rows_accounts(rs@.take(i as int)).len(),
                forall|k: int| 0 <= k < accounts@.len() ==> row_account_matches(
                    #[trigger] accounts@[k], rows_accounts(rs@.take(i as int))[k].0, rows_accounts(rs@.take(i as int))[k].1),
            decreases rs@.len() - i,
        {
            let s = &rs[i].0;
            let site = RawSite {
                name: s.name.clone(),
                domain: s.domain.clone(),
                login_path: s.login_path.clone(),
                sign_in_path: copy_opt(&s.sign_in_path),
                user_info_path: s.user_info_path.clone(),
                tokens_path: s.tokens_path.clone(),
                logs_path: s.logs_path.clone(),
                chart_path: s.chart_path.clone(),
                api_user_key: s.api_user_key.clone(),
            };
            let ghost before = sites@;
            sites.push(site);
            assert(sites@.map_values(|s: RawSite| s@) =~= before.map_values(|s: RawSite| s@).push(row_site_view(*s)));
            let accs = &rs[i].1;
            let ghost base = rows_accounts(rs@.take(i as int));
            let ghost added = accs@.map_values(|a: Account| (*s, a));
            let mut j: usize = 0;
            while j < accs.len()
                invariant
                    j <= accs@.len(),
                    added == accs@.map_values(|a: Account| (*s, a)),
                    accounts@.len() == base.len() + j,
                    forall|k: int| 0 <= k < accounts@.len() ==> row_account_matches(
                        #[trigger] accounts@[k], (base + added)[k].0, (base + added)[k].1),
                decreases accs@.len() - j,
            {
                let a = &accs[j];
                accounts.push(RawAccount {
                    site_name: s.name.clone(),
                    api_user: a.api_user.clone(),
                    display_name: Some(a.name.clone()),
                    cookies: copy_opt(&a.cookies),
                    username: copy_opt(&a.username),
                    password: copy_opt(&a.password),
                });
                assert((base + added)[base.len() + j] == (*s, accs@[j as int]));
                j = j + 1;
                assert forall|k: int| 0 <= k < accounts@.len() implies row_account_matches(
                    #[trigger] accounts@[k], (base + added)[k].0, (base + added)[k].1) by {
                    if k < accounts@.len() - 1 {
                    }
                }
            }
            assert(rs@.take(i + 1).drop_last() =~= rs@.take(i as int));
            assert(rows_accounts(rs@.take(i + 1)) == base + added);
            i = i + 1;
            assert(sites@.map_values(|s: RawSite| s@) =~= rs@.take(i as int).map_values(|p: (Site, Vec<Account>)| row_site_view(p.0)));
        }
        assert(rs@.take(rs@.len() as int) =~= rs@);
        Ok(RawConfig { sites, accounts, email: None })
    }
}

impl crate::config_loader::source::ConfigSource for SqliteSource {
    fn kind(&self) -> (r: crate::config_loader::source::SourceKind)
        ensures
            r == crate::config_loader::source::SourceKind::Sqlite,
    {
        crate::config_loader::source::SourceKind::Sqlite
    }
}

} // verus!
