use anyrouter::config_loader::env_source::EnvAccountEntry;
use anyrouter::env_import::{import_account, import_accounts, import_sites};
use anyrouter::models::{parse_cache_kind, CacheKind};

fn entry(provider: Option<&str>, name: Option<&str>, api_user: Option<&str>, cookies: Option<&str>) -> EnvAccountEntry {
    EnvAccountEntry {
        api_user: api_user.map(str::to_string),
        provider: provider.map(str::to_string),
        name: name.map(str::to_string),
        username: Some("u".to_string()),
        password: None,
        cookies_json: cookies.map(str::to_string),
    }
}

#[test]
fn first_run_inserts_both_builtin_sites() {
    let sites = import_sites();
    assert_eq!(sites.len(), 2);
    assert_eq!(sites[0].name, "AnyRouter");
    assert_eq!(sites[0].domain, "https://anyrouter.top");
    assert_eq!(sites[0].sign_in_path.as_deref(), Some("/api/user/sign_in"));
    assert_eq!(sites[1].name, "AgentRouter");
    assert_eq!(sites[1].sign_in_path, None);
    assert_eq!(sites[1].chart_path, "/api/data/self");
    assert_eq!(sites[1].api_user_key, "new-api-user");
}

#[test]
fn imported_accounts_pick_site_name_and_cookies() {
    let a = import_account(&entry(Some("AgentRouter"), Some(""), Some("151687"), Some("{\"session\":\"x\"}")), 0, 1, 2);
    assert_eq!(a.site_id, 2);
    assert_eq!(a.name, "Account 1");
    assert_eq!(a.api_user, "151687");
    assert_eq!(a.username.as_deref(), Some("u"));
    assert_eq!(a.cookies.as_deref(), Some("{\"session\":\"x\"}"));

    let b = import_account(&entry(Some("other"), Some("主账号"), None, Some("[]")), 4, 1, 2);
    assert_eq!(b.site_id, 1);
    assert_eq!(b.name, "主账号");
    assert_eq!(b.api_user, "");
    assert_eq!(b.cookies, None);

    let all = import_accounts(&vec![entry(None, None, None, Some("\"\"")), entry(None, None, None, Some("\"abc\""))], 7, 8);
    assert_eq!(all.len(), 2);
    assert_eq!(all[0].name, "Account 1");
    assert_eq!(all[0].site_id, 7);
    assert_eq!(all[0].cookies, None);
    assert_eq!(all[1].name, "Account 2");
    assert_eq!(all[1].cookies.as_deref(), Some("\"abc\""));
}

#[test]
fn cache_kind_names_round_trip() {
    for k in [CacheKind::Overview, CacheKind::Tokens, CacheKind::Logs, CacheKind::Chart] {
        assert_eq!(parse_cache_kind(k.as_str()), k);
    }
    assert_eq!(parse_cache_kind("unknown"), CacheKind::Overview);
}
