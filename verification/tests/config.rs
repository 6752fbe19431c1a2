use anyrouter::config::{choose_config_file, choose_optional_config_file, config_file_candidates};
use anyrouter::config::{
    built_in_providers, extend_providers, fill_provider_names, load_runtime_config, validate_accounts, AccountConfig,
    AppConfig, CookieValue, LoadedFileConfig, ProviderConfig,
};

fn account(cookies: CookieValue, name: Option<&str>, username: Option<&str>, password: Option<&str>) -> AccountConfig {
    AccountConfig {
        cookies,
        api_user: "148714".to_string(),
        provider: "anyrouter".to_string(),
        name: name.map(|s| s.to_string()),
        username: username.map(|s| s.to_string()),
        password: password.map(|s| s.to_string()),
        sso_provider: None,
        sso_username: None,
        sso_password: None,
    }
}

#[test]
fn validates_username_password_only_account() {
    let account = account(CookieValue::Other, Some("pwd-only"), Some("alice"), Some("secret"));
    assert!(validate_accounts(&[account]).is_ok());
}

#[test]
fn rejects_account_without_auth_material() {
    let account = account(CookieValue::Other, Some("invalid"), None, None);
    let err = validate_accounts(&[account]).unwrap_err();
    assert!(err.contains("Missing authentication material"));
    assert_eq!(
        err,
        "[invalid] Missing authentication material: provide cookies or username/password"
    );
}

#[test]
fn resolves_legacy_username_password_from_cookies() {
    let cookies = CookieValue::Object(vec![
        ("_username".to_string(), Some("legacy-user".to_string())),
        ("_password".to_string(), Some("legacy-pass".to_string())),
    ]);
    let account = account(cookies, None, None, None);
    assert_eq!(account.resolved_username().as_deref(), Some("legacy-user"));
    assert_eq!(account.resolved_password().as_deref(), Some("legacy-pass"));
    assert!(!account.has_cookie_material());
}

#[test]
fn explicit_credentials_win_over_legacy_fields() {
    let cookies = CookieValue::Object(vec![("_username".to_string(), Some("legacy".to_string()))]);
    let a = account(cookies, None, Some("  alice "), Some("   "));
    assert_eq!(a.resolved_username().as_deref(), Some("alice"));
    assert_eq!(a.resolved_password(), None);
    let err = validate_accounts(&[a]).unwrap_err();
    assert_eq!(err, "[Account 1] username/password must be provided together");
}

#[test]
fn missing_api_user_and_provider_are_reported_with_display_name() {
    let mut a = account(CookieValue::Text("session=x".into()), Some("  main "), None, None);
    a.api_user = "  ".into();
    assert_eq!(validate_accounts(&[a.clone()]).unwrap_err(), "[main] Missing required field: api_user");
    a.api_user = "1".into();
    a.provider = String::new();
    let ok = account(CookieValue::Text("s=1".into()), None, None, None);
    assert_eq!(
        validate_accounts(&[ok, a]).unwrap_err(),
        "[main] Missing required field: provider"
    );
}

#[test]
fn display_name_falls_back_to_position() {
    let a = account(CookieValue::Other, Some(" "), None, None);
    assert_eq!(a.get_display_name(0), "Account 1");
    assert_eq!(a.get_display_name(41), "Account 42");
    let b = account(CookieValue::Other, Some(" 主账号 "), None, None);
    assert_eq!(b.get_display_name(3), "主账号");
}

#[test]
fn cookie_summary_forms() {
    let obj = CookieValue::Object(vec![
        ("session".to_string(), Some("abc123".to_string())),
        ("_username".to_string(), Some("u".to_string())),
        ("acw_tc".to_string(), None),
    ]);
    let a = account(obj, None, None, None);
    assert_eq!(a.cookie_summary(), "session, acw_tc");
    assert!(a.has_cookie_material());
    let t = account(CookieValue::Text("session=xxx; other_cookie=yyy; ;junk".into()), None, None, None);
    assert_eq!(t.cookie_summary(), "2 cookie(s) from string");
    assert!(t.has_cookie_material());
    let e = account(CookieValue::Text(" ; ".into()), None, None, None);
    assert_eq!(e.cookie_summary(), "no cookies");
    assert!(!e.has_cookie_material());
    let o = account(CookieValue::Other, None, None, None);
    assert_eq!(o.cookie_summary(), "no cookies");
    let only_meta = account(CookieValue::Object(vec![("_password".into(), Some("p".into()))]), None, None, None);
    assert_eq!(only_meta.cookie_summary(), "no cookies");
}

#[test]
fn builtin_and_extended_providers() {
    let mut providers = built_in_providers();
    assert_eq!(providers.len(), 2);
    let cfg = AppConfig { providers: providers.clone() };
    let any = cfg.get_provider("anyrouter").unwrap();
    assert_eq!(any.domain, "https://anyrouter.top");
    assert!(any.needs_manual_check_in());
    assert!(!cfg.get_provider("agentrouter").unwrap().needs_manual_check_in());
    assert!(cfg.get_provider("missing").is_none());

    let mut custom = vec![(
        "custom".to_string(),
        ProviderConfig {
            name: " ".to_string(),
            domain: "https://example.com".to_string(),
            login_path: "/login".to_string(),
            sign_in_path: Some("/custom/sign".to_string()),
            user_info_path: "/api/user/self".to_string(),
            api_user_key: "new-api-user".to_string(),
        },
    )];
    fill_provider_names(&mut custom);
    assert_eq!(custom[0].1.name, "custom");
    let mut agent = providers[1].1.clone();
    agent.domain = "https://mirror.example".into();
    custom.push(("agentrouter".to_string(), agent));
    extend_providers(&mut providers, custom);
    let cfg = AppConfig { providers };
    assert_eq!(cfg.providers.len(), 3);
    assert_eq!(cfg.get_provider("custom").unwrap().domain, "https://example.com");
    assert_eq!(cfg.get_provider("agentrouter").unwrap().domain, "https://mirror.example");
}

fn provider(name: &str, domain: &str) -> ProviderConfig {
    ProviderConfig {
        name: name.to_string(),
        domain: domain.to_string(),
        login_path: "/login".to_string(),
        sign_in_path: None,
        user_info_path: "/api/user/self".to_string(),
        api_user_key: "new-api-user".to_string(),
    }
}

fn valid_account() -> AccountConfig {
    account(CookieValue::Text("session=abc".to_string()), Some("main"), None, None)
}

#[test]
fn runtime_config_from_file_extends_builtin_providers() {
    let file = LoadedFileConfig {
        path: "conf.json".to_string(),
        providers: vec![("custom".to_string(), provider("", "https://example.com")), ("anyrouter".to_string(), provider("anyrouter", "https://mirror.example"))],
        accounts: vec![valid_account()],
    };
    let ignored = Some(Err("should not be read".to_string()));
    let c = load_runtime_config(Some(file), ignored, None).unwrap();
    assert_eq!(c.config_file_path.as_deref(), Some("conf.json"));
    assert_eq!(c.accounts.len(), 1);
    assert_eq!(c.app_config.providers.len(), 3);
    assert_eq!(c.app_config.get_provider("custom").unwrap().name, "custom");
    assert_eq!(c.app_config.get_provider("custom").unwrap().domain, "https://example.com");
    assert_eq!(c.app_config.get_provider("anyrouter").unwrap().domain, "https://mirror.example");
    assert_eq!(c.app_config.get_provider("agentrouter").unwrap().domain, "https://agentrouter.org");
}

#[test]
fn runtime_config_errors_name_their_cause() {
    let empty_file = LoadedFileConfig { path: "conf.json".to_string(), providers: vec![], accounts: vec![] };
    assert_eq!(
        load_runtime_config(Some(empty_file), None, None).unwrap_err(),
        "No accounts found in configuration file: conf.json"
    );
    assert_eq!(
        load_runtime_config(None, None, None).unwrap_err(),
        "conf.json not found and ANYROUTER_ACCOUNTS environment variable not found"
    );
    assert_eq!(
        load_runtime_config(None, Some(Err("expected value".to_string())), Some(Ok(vec![valid_account()]))).unwrap_err(),
        "Failed to parse PROVIDERS environment variable: expected value"
    );
    assert_eq!(
        load_runtime_config(None, None, Some(Err("EOF".to_string()))).unwrap_err(),
        "Account configuration JSON parse failed from ANYROUTER_ACCOUNTS environment variable: EOF"
    );
    let no_auth = account(CookieValue::Other, Some("bad"), None, None);
    assert_eq!(
        load_runtime_config(None, None, Some(Ok(vec![no_auth]))).unwrap_err(),
        "[bad] Missing authentication material: provide cookies or username/password"
    );
}

#[test]
fn runtime_config_from_environment() {
    let c = load_runtime_config(
        None,
        Some(Ok(vec![("x".to_string(), provider("  ", "https://x.example"))])),
        Some(Ok(vec![valid_account()])),
    )
    .unwrap();
    assert_eq!(c.config_file_path, None);
    assert_eq!(c.app_config.get_provider("x").unwrap().name, "x");
    assert_eq!(c.app_config.providers.len(), 3);
}

#[test]
fn sso_only_accounts_are_accepted_and_sso_fields_come_together() {
    let mut sso = account(CookieValue::Other, Some("F"), None, None);
    sso.sso_provider = Some("github".to_string());
    sso.sso_username = Some("octo@example.com".to_string());
    sso.sso_password = Some("pw".to_string());
    assert!(validate_accounts(&[sso.clone()]).is_ok());
    let mut partial = sso.clone();
    partial.sso_password = Some("  ".to_string());
    assert_eq!(
        validate_accounts(&[partial]).unwrap_err(),
        "[F] sso_provider/sso_username/sso_password must be provided together"
    );
    let legacy = account(
        CookieValue::Object(vec![
            ("_sso_provider".to_string(), Some("linuxdo".to_string())),
            ("_sso_username".to_string(), Some("u".to_string())),
            ("_sso_password".to_string(), Some("p".to_string())),
        ]),
        Some("E"),
        None,
        None,
    );
    assert!(validate_accounts(&[legacy.clone()]).is_ok());
    assert_eq!(legacy.resolved_sso_provider().as_deref(), Some("linuxdo"));
    assert_eq!(sso.resolved_sso_username().as_deref(), Some("octo@example.com"));
}

#[test]
fn config_file_discovery_order() {
    assert_eq!(config_file_candidates(), vec!["conf.json", "anyrouter-config.json", "anyrouter-config.toml"]);
    assert_eq!(
        choose_config_file(Some("  ".to_string()), &vec![true, true, true]),
        Err("ANYROUTER_CONFIG_FILE is set but empty".to_string())
    );
    assert_eq!(
        choose_config_file(Some(" my.toml ".to_string()), &vec![true, false, false]),
        Ok(Some("my.toml".to_string()))
    );
    assert_eq!(choose_config_file(None, &vec![false, true, true]), Ok(Some("anyrouter-config.json".to_string())));
    assert_eq!(choose_config_file(None, &vec![false, false, true]), Ok(Some("anyrouter-config.toml".to_string())));
    assert_eq!(choose_config_file(None, &vec![false, false, false]), Ok(None));
    assert_eq!(choose_optional_config_file(Some(" ".to_string()), &vec![true, false, false]).as_deref(), Some("conf.json"));
    assert_eq!(choose_optional_config_file(Some("x.json".to_string()), &vec![true, false, false]).as_deref(), Some("x.json"));
}
