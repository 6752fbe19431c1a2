use std::path::PathBuf;

use anyrouter::config_loader::env_source::{EnvAccountEntry, EnvProviderEntry, EnvSource};
use anyrouter::config_loader::file_source::{FileAccount, FileConfig, FileSite, FileSource};
use anyrouter::config_loader::merge::{accounts_to_insert, merge_configs, sites_to_insert};
use anyrouter::config_loader::sqlite_source::SqliteSource;
use anyrouter::models::{Account as ModelAccount, Site as ModelSite};
use anyrouter::config_loader::source::SourceKind;
use anyrouter::config_loader::types::{RawAccount, RawConfig, RawEmail, RawSite};

fn site(name: &str, domain: &str) -> RawSite {
    RawSite::with_defaults(name, domain, None)
}

fn acct(site: &str, api: &str, name: &str) -> RawAccount {
    RawAccount {
        site_name: site.into(),
        api_user: api.into(),
        display_name: Some(name.into()),
        cookies: None,
        username: None,
        password: None,
    }
}

#[test]
fn email_overlay_keeps_filled_and_applies_nonempty() {
    let mut base = RawEmail {
        user: "a@x.com".into(),
        ..Default::default()
    };
    let next = RawEmail {
        pass: "secret".into(),
        ..Default::default()
    };
    base.overlay(&next);
    assert_eq!(base.user, "a@x.com");
    assert_eq!(base.pass, "secret");
}

#[test]
fn account_key_is_site_and_api_user() {
    let a = RawAccount {
        site_name: "AnyRouter".into(),
        api_user: "151687".into(),
        display_name: None,
        cookies: None,
        username: None,
        password: None,
    };
    assert_eq!(a.key(), ("AnyRouter".to_string(), "151687".to_string()));
}

#[test]
fn parse_source_names() {
    assert_eq!(SourceKind::parse("ENV"), Some(SourceKind::Env));
    assert_eq!(SourceKind::parse(" file "), Some(SourceKind::File));
    assert_eq!(SourceKind::parse("db"), Some(SourceKind::Sqlite));
    assert_eq!(SourceKind::parse("sqlite"), Some(SourceKind::Sqlite));
    assert_eq!(SourceKind::parse("xxx"), None);
}

#[test]
fn source_names_round_trip() {
    for k in [SourceKind::Env, SourceKind::File, SourceKind::Sqlite] {
        assert_eq!(SourceKind::parse(k.as_str()), Some(k));
    }
    assert_eq!(SourceKind::parse("\u{3000}Sqlite\t"), Some(SourceKind::Sqlite));
}

#[test]
fn later_source_overrides_same_key() {
    let env = RawConfig {
        sites: vec![site("S", "https://old.com")],
        accounts: vec![acct("S", "1", "envname")],
        email: None,
    };
    let sqlite = RawConfig {
        sites: vec![site("S", "https://new.com")],
        accounts: vec![acct("S", "1", "dbname")],
        email: None,
    };
    let merged = merge_configs(&[env, sqlite]);
    assert_eq!(merged.sites.len(), 1);
    assert_eq!(merged.sites[0].domain, "https://new.com");
    assert_eq!(merged.accounts.len(), 1);
    assert_eq!(merged.accounts[0].display_name.as_deref(), Some("dbname"));
}

#[test]
fn different_keys_accumulate() {
    let a = RawConfig {
        accounts: vec![acct("S", "1", "a")],
        ..Default::default()
    };
    let b = RawConfig {
        accounts: vec![acct("S", "2", "b")],
        ..Default::default()
    };
    let merged = merge_configs(&[a, b]);
    assert_eq!(merged.accounts.len(), 2);
}

#[test]
fn email_field_level_overlay() {
    let env = RawConfig {
        email: Some(RawEmail {
            user: "u".into(),
            ..Default::default()
        }),
        ..Default::default()
    };
    let file = RawConfig {
        email: Some(RawEmail {
            pass: "p".into(),
            ..Default::default()
        }),
        ..Default::default()
    };
    let merged = merge_configs(&[env, file]);
    let e = merged.email.unwrap();
    assert_eq!(e.user, "u");
    assert_eq!(e.pass, "p");
}

#[test]
fn merge_sorts_by_key_and_keeps_last() {
    let a = RawConfig {
        sites: vec![site("b", "1"), site("a", "2"), site("b", "3")],
        accounts: vec![acct("y", "2", "p"), acct("x", "9", "q"), acct("y", "10", "r")],
        email: None,
    };
    let merged = merge_configs(&[a]);
    let names: Vec<&str> = merged.sites.iter().map(|s| s.name.as_str()).collect();
    assert_eq!(names, vec!["a", "b"]);
    assert_eq!(merged.sites[1].domain, "3");
    let keys: Vec<(String, String)> = merged.accounts.iter().map(|a| a.key()).collect();
    assert_eq!(
        keys,
        vec![
            ("x".to_string(), "9".to_string()),
            ("y".to_string(), "10".to_string()),
            ("y".to_string(), "2".to_string()),
        ]
    );
}

#[test]
fn builtin_sites_have_correct_schema() {
    let sites = EnvSource::builtin_sites();
    let any = sites.iter().find(|s| s.name == "AnyRouter").unwrap();
    assert_eq!(any.api_user_key, "new-api-user");
    assert_eq!(any.user_info_path, "/api/user/self");
    assert_eq!(any.sign_in_path.as_deref(), Some("/api/user/sign_in"));
    let agent = sites.iter().find(|s| s.name == "AgentRouter").unwrap();
    assert_eq!(agent.sign_in_path, None);
}

#[test]
fn parse_accounts_maps_provider_and_underscore_fields() {
    // [{"api_user":"151687","provider":"agentrouter","name":"教育邮箱","_username":"u","_password":"p"}]
    let entry = EnvAccountEntry {
        api_user: Some("151687".into()),
        provider: Some("agentrouter".into()),
        name: Some("教育邮箱".into()),
        username: Some("u".into()),
        password: Some("p".into()),
        cookies_json: None,
    };
    let accts = EnvSource::parse_accounts(Some(vec![entry]));
    assert_eq!(accts.len(), 1);
    assert_eq!(accts[0].site_name, "AgentRouter");
    assert_eq!(accts[0].api_user, "151687");
    assert_eq!(accts[0].display_name.as_deref(), Some("教育邮箱"));
    assert_eq!(accts[0].username.as_deref(), Some("u"));
    assert_eq!(accts[0].password.as_deref(), Some("p"));
}

#[test]
fn parse_accounts_skips_empty_api_user() {
    // [{"api_user":"","name":"x"}]
    let entry = EnvAccountEntry {
        api_user: Some(String::new()),
        name: Some("x".into()),
        ..Default::default()
    };
    assert_eq!(EnvSource::parse_accounts(Some(vec![entry])).len(), 0);
}

#[test]
fn parse_accounts_lowercases_custom_provider_and_drops_blank_cookies() {
    let entries = vec![
        EnvAccountEntry {
            api_user: Some("7".into()),
            provider: Some("MySite".into()),
            cookies_json: Some("{}".into()),
            ..Default::default()
        },
        EnvAccountEntry {
            api_user: Some("8".into()),
            provider: Some("AnyRouter".into()),
            name: Some(String::new()),
            cookies_json: Some("{\"session\":\"x\"}".into()),
            ..Default::default()
        },
    ];
    let accts = EnvSource::parse_accounts(Some(entries));
    assert_eq!(accts[0].site_name, "mysite");
    assert_eq!(accts[0].cookies, None);
    assert_eq!(accts[1].site_name, "AnyRouter");
    assert_eq!(accts[1].display_name, None);
    assert_eq!(accts[1].cookies.as_deref(), Some("{\"session\":\"x\"}"));
    assert!(EnvSource::parse_accounts(None).is_empty());
}

#[test]
fn parse_providers_replaces_builtin_of_same_name() {
    let mut sites = EnvSource::builtin_sites();
    let entries = vec![
        EnvProviderEntry {
            key: "k".into(),
            name: Some("AnyRouter".into()),
            domain: Some("https://mirror.example".into()),
            api_user_key: Some("x-user".into()),
            ..Default::default()
        },
        EnvProviderEntry {
            key: "nodomain".into(),
            ..Default::default()
        },
    ];
    EnvSource::parse_providers(Some(entries), &mut sites);
    assert_eq!(sites.len(), 2);
    assert_eq!(sites[0].name, "AgentRouter");
    assert_eq!(sites[1].name, "AnyRouter");
    assert_eq!(sites[1].domain, "https://mirror.example");
    assert_eq!(sites[1].api_user_key, "x-user");
    assert_eq!(sites[1].sign_in_path, None);
    assert_eq!(sites[1].login_path, "/login");
}

#[test]
fn parse_email_is_none_when_blank() {
    assert_eq!(EnvSource::parse_email(RawEmail::default()), None);
    let e = RawEmail { to: "t@x".into(), ..Default::default() };
    assert_eq!(EnvSource::parse_email(e.clone()), Some(e));
}

#[test]
fn missing_file_is_empty_source() {
    let src = FileSource::new(PathBuf::from("/no/such/file_xyz.json"));
    // the file does not exist
    let cfg = src.load(None).unwrap();
    assert!(cfg.sites.is_empty() && cfg.accounts.is_empty());
}

fn decode(text: &str) -> Result<FileConfig, String> {
    let v: serde_json::Value = serde_json::from_str(text).map_err(|e| e.to_string())?;
    let s = |o: &serde_json::Value, k: &str| o.get(k).and_then(|x| x.as_str()).map(|x| x.to_string());
    let mut cfg = FileConfig::default();
    for site in v.get("sites").and_then(|x| x.as_array()).cloned().unwrap_or_default() {
        cfg.sites.push(FileSite {
            name: s(&site, "name").unwrap_or_default(),
            domain: s(&site, "domain").unwrap_or_default(),
            login_path: s(&site, "login_path"),
            sign_in_path: s(&site, "sign_in_path"),
            user_info_path: s(&site, "user_info_path"),
            tokens_path: s(&site, "tokens_path"),
            logs_path: s(&site, "logs_path"),
            chart_path: s(&site, "chart_path"),
            api_user_key: s(&site, "api_user_key"),
        });
    }
    for a in v.get("accounts").and_then(|x| x.as_array()).cloned().unwrap_or_default() {
        cfg.accounts.push(FileAccount {
            site_name: s(&a, "site_name").unwrap_or_default(),
            api_user: s(&a, "api_user").unwrap_or_default(),
            name: s(&a, "name"),
            cookies: s(&a, "cookies"),
            username: s(&a, "username"),
            password: s(&a, "password"),
        });
    }
    Ok(cfg)
}

#[test]
fn parses_valid_json_with_defaults() {
    let text = r#"{"sites":[{"name":"S","domain":"https://s.com"}],"accounts":[{"site_name":"S","api_user":"1","name":"n"}]}"#;
    let src = FileSource::new(PathBuf::from("config.json"));
    let cfg = src.load(Some(decode(text))).unwrap();
    assert_eq!(cfg.sites.len(), 1);
    assert_eq!(cfg.sites[0].api_user_key, "new-api-user");
    assert_eq!(cfg.accounts[0].site_name, "S");
}

#[test]
fn invalid_json_returns_err() {
    let src = FileSource::new(PathBuf::from("config.json"));
    assert!(src.load(Some(decode("{ not json"))).is_err());
}

fn db_site(id: i64, name: &str) -> ModelSite {
    ModelSite {
        id,
        name: name.to_string(),
        domain: "https://s.com".to_string(),
        login_path: "/login".to_string(),
        sign_in_path: None,
        user_info_path: "/api/user/self".to_string(),
        tokens_path: "/api/token/".to_string(),
        logs_path: "/api/log/self".to_string(),
        chart_path: "/api/data/self".to_string(),
        api_user_key: "new-api-user".to_string(),
        created_at: String::new(),
        updated_at: String::new(),
    }
}

fn db_account(id: i64, site_id: i64, name: &str, api_user: &str) -> ModelAccount {
    ModelAccount {
        id,
        site_id,
        name: name.to_string(),
        api_user: api_user.to_string(),
        username: None,
        password: None,
        cookies: None,
        cookie_issued_at: None,
        cookie_expires_at: None,
        created_at: String::new(),
        updated_at: String::new(),
    }
}

#[test]
fn reads_sites_and_accounts_from_db() {
    // rows of a database holding site S (https://s.com) with account "acc" (api_user 99)
    let rows = vec![(db_site(1, "S"), vec![db_account(1, 1, "acc", "99")])];
    let cfg = SqliteSource::new(PathBuf::from("t.db")).load(Ok(rows)).unwrap();
    assert_eq!(cfg.sites.len(), 1);
    assert_eq!(cfg.accounts.len(), 1);
    assert_eq!(cfg.accounts[0].site_name, "S");
    assert_eq!(cfg.accounts[0].api_user, "99");
}

#[test]
fn writeback_inserts_new_and_keeps_existing() {
    // the database holds S with account (S, 1) named "old"
    let existing_sites = vec![db_site(7, "S")];
    let existing_accounts = vec![db_account(1, 7, "old", "1")];
    let merged = RawConfig {
        sites: vec![site("S", "https://s.com")],
        accounts: vec![acct("S", "1", "newname"), acct("S", "2", "b")],
        email: None,
    };
    let new_sites = sites_to_insert(&existing_sites, &merged);
    let new_accounts = accounts_to_insert(&existing_sites, &existing_accounts, &merged);
    assert_eq!(new_sites.len(), 0);
    assert_eq!(new_accounts.len(), 1);
    assert_eq!(new_accounts[0].site_id, 7);
    assert_eq!(new_accounts[0].api_user, "2");
    assert_eq!(new_accounts[0].name, "b");
    // (S, 1) is not planned again, so the stored "old" stays
    assert!(new_accounts.iter().all(|a| a.api_user != "1"));
}

#[test]
fn writeback_skips_unknown_sites_and_repeats() {
    let existing_sites = vec![db_site(1, "A")];
    let merged = RawConfig {
        sites: vec![site("A", "https://a.com"), site("B", "https://b.com")],
        accounts: vec![
            RawAccount { display_name: None, ..acct("A", "5", "x") },
            acct("B", "6", "y"),
            acct("A", "5", "again"),
        ],
        email: None,
    };
    let new_sites = sites_to_insert(&existing_sites, &merged);
    assert_eq!(new_sites.len(), 1);
    assert_eq!(new_sites[0].name, "B");
    let new_accounts = accounts_to_insert(&existing_sites, &vec![], &merged);
    assert_eq!(new_accounts.len(), 1);
    assert_eq!(new_accounts[0].name, "5");
}

fn cfg(sites: Vec<RawSite>, accounts: Vec<RawAccount>, email: Option<RawEmail>) -> RawConfig {
    RawConfig { sites, accounts, email }
}

fn summary(c: &RawConfig) -> (Vec<(String, String)>, Vec<(String, String, Option<String>)>, Option<(String, String)>) {
    (
        c.sites.iter().map(|s| (s.name.clone(), s.domain.clone())).collect(),
        c.accounts.iter().map(|a| (a.site_name.clone(), a.api_user.clone(), a.display_name.clone())).collect(),
        c.email.as_ref().map(|e| (e.user.clone(), e.pass.clone())),
    )
}

#[test]
fn merging_again_or_in_stages_changes_nothing() {
    let a = cfg(vec![site("b", "https://a1"), site("a", "https://a2")], vec![acct("a", "1", "x")], None);
    let b = cfg(
        vec![site("a", "https://b1")],
        vec![acct("a", "1", "y"), acct("b", "2", "z")],
        Some(RawEmail { user: "u".into(), ..Default::default() }),
    );
    let c = cfg(
        vec![site("c", "https://c1"), site("b", "https://c2")],
        vec![acct("b", "2", "w")],
        Some(RawEmail { pass: "p".into(), ..Default::default() }),
    );
    let all = merge_configs(&[a.clone(), b.clone(), c.clone()]);
    let again = merge_configs(&[all.clone()]);
    assert_eq!(summary(&again), summary(&all));
    let left = merge_configs(&[merge_configs(&[a.clone(), b.clone()]), c.clone()]);
    let right = merge_configs(&[a.clone(), merge_configs(&[b.clone(), c.clone()])]);
    assert_eq!(summary(&left), summary(&all));
    assert_eq!(summary(&right), summary(&all));
    let none = merge_configs(&[]);
    assert!(none.sites.is_empty() && none.accounts.is_empty() && none.email.is_none());
    assert_eq!(
        summary(&all).0,
        vec![("a".to_string(), "https://b1".to_string()), ("b".to_string(), "https://c2".to_string()), ("c".to_string(), "https://c1".to_string())]
    );
}
