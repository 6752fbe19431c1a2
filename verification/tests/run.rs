use anyrouter::config::{AccountConfig, AppConfig, CookieValue, ProviderConfig};
use anyrouter::playwright::{build_account, credential_value, credential_var_name, runner_accounts, EnvCredentials};
use anyrouter::run::{exit_status, match_results_by_name};

fn s(v: &[&str]) -> Vec<String> {
    v.iter().map(|x| x.to_string()).collect()
}

#[test]
fn results_are_matched_by_display_name_in_config_order() {
    let accounts = s(&["a", "b", "c"]);
    let results = s(&["c", "a", "x"]);
    assert_eq!(match_results_by_name(&accounts, &results), vec![Some(1), None, Some(0)]);
}

#[test]
fn duplicate_names_take_the_last_result_once() {
    let accounts = s(&["a", "a"]);
    let results = s(&["a", "b", "a"]);
    assert_eq!(match_results_by_name(&accounts, &results), vec![Some(2), None]);
    assert_eq!(match_results_by_name(&s(&[]), &results), vec![]);
}

#[test]
fn exit_status_reflects_any_success() {
    assert_eq!(exit_status(0), 1);
    assert_eq!(exit_status(3), 0);
}

#[test]
fn runner_record_takes_credentials_from_account_then_environment() {
    let account = AccountConfig {
        cookies: CookieValue::Object(vec![("_password".to_string(), Some(" legacy ".to_string()))]),
        api_user: "151687".to_string(),
        provider: "anyrouter".to_string(),
        name: None,
        username: None,
        password: None,
        sso_provider: None,
        sso_username: None,
        sso_password: None,
    };
    let provider = ProviderConfig {
        name: "anyrouter".to_string(),
        domain: "https://anyrouter.top".to_string(),
        login_path: "/login".to_string(),
        sign_in_path: Some("/api/user/sign_in".to_string()),
        user_info_path: "/api/user/self".to_string(),
        api_user_key: "new-api-user".to_string(),
    };
    let env = EnvCredentials {
        username: credential_value(Some("  env-user ".to_string())),
        password: credential_value(Some("env-pass".to_string())),
        sso_provider: credential_value(Some("   ".to_string())),
        sso_username: None,
        sso_password: None,
    };
    let r = build_account(&account, &provider, 1, &env);
    assert_eq!(r.name, "Account 2");
    assert_eq!(r.domain, "https://anyrouter.top");
    assert_eq!(r.sign_in_path.as_deref(), Some("/api/user/sign_in"));
    assert_eq!(r.api_user, "151687");
    assert_eq!(r.username.as_deref(), Some("env-user"));
    assert_eq!(r.password.as_deref(), Some("legacy"));
    assert_eq!(r.sso_provider, None);
    assert_eq!(credential_var_name("ANYROUTER_USERNAME", 1), "ANYROUTER_USERNAME_2");
}

#[test]
fn runner_record_takes_sso_login_from_account_then_environment() {
    let account = AccountConfig {
        cookies: CookieValue::Object(vec![("_sso_password".to_string(), Some(" legacy ".to_string()))]),
        api_user: "1".to_string(),
        provider: "anyrouter".to_string(),
        name: None,
        username: None,
        password: None,
        sso_provider: Some(" github ".to_string()),
        sso_username: None,
        sso_password: None,
    };
    let provider = ProviderConfig {
        name: "anyrouter".to_string(),
        domain: "https://anyrouter.top".to_string(),
        login_path: "/login".to_string(),
        sign_in_path: None,
        user_info_path: "/api/user/self".to_string(),
        api_user_key: "new-api-user".to_string(),
    };
    let env = EnvCredentials {
        username: None,
        password: None,
        sso_provider: Some("linuxdo".to_string()),
        sso_username: Some("env-sso".to_string()),
        sso_password: Some("env-pw".to_string()),
    };
    let r = build_account(&account, &provider, 0, &env);
    assert_eq!(r.sso_provider.as_deref(), Some("github"));
    assert_eq!(r.sso_username.as_deref(), Some("env-sso"));
    assert_eq!(r.sso_password.as_deref(), Some("legacy"));
}

#[test]
fn runner_batch_skips_unknown_providers() {
    let provider = ProviderConfig {
        name: "anyrouter".to_string(),
        domain: "https://anyrouter.top".to_string(),
        login_path: "/login".to_string(),
        sign_in_path: None,
        user_info_path: "/api/user/self".to_string(),
        api_user_key: "new-api-user".to_string(),
    };
    let config = AppConfig { providers: vec![("anyrouter".to_string(), provider)] };
    let acc = |p: &str, n: &str| AccountConfig {
        cookies: CookieValue::Text("session=x".to_string()),
        api_user: "1".to_string(),
        provider: p.to_string(),
        name: Some(n.to_string()),
        username: None,
        password: None,
        sso_provider: None,
        sso_username: None,
        sso_password: None,
    };
    let accounts = vec![acc("nowhere", "a"), acc("anyrouter", "b")];
    let env = vec![EnvCredentials::default(), EnvCredentials::default()];
    let (batch, warnings) = runner_accounts(&accounts, &config, &env);
    assert_eq!(warnings, vec!["Provider \"nowhere\" not found, skipping account a".to_string()]);
    let batch = batch.unwrap();
    assert_eq!(batch.len(), 1);
    assert_eq!(batch[0].0, 1);
    assert_eq!(batch[0].1.name, "b");
    let (none, _) = runner_accounts(&vec![acc("nowhere", "a")], &config, &vec![EnvCredentials::default()]);
    assert_eq!(none.unwrap_err(), "No valid accounts to process");
}
