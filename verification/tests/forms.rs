use anyrouter::forms::{
    account_from_form, account_input_from_dialog, nonempty_or, site_from_form, storage_site_from_form, AccountFields, CredMethod, FormError,
    SiteFields,
};

fn site_fields(name: &str, domain: &str) -> SiteFields {
    SiteFields {
        name: name.to_string(),
        domain: domain.to_string(),
        login_path: String::new(),
        sign_in_path: String::new(),
        user_info_path: String::new(),
        tokens_path: String::new(),
        logs_path: String::new(),
        chart_path: String::new(),
        api_user_key: String::new(),
    }
}

fn account_fields(name: &str, api_user: &str, cookie: &str, username: &str, password: &str) -> AccountFields {
    AccountFields {
        name: name.to_string(),
        api_user: api_user.to_string(),
        cookie: cookie.to_string(),
        username: username.to_string(),
        password: password.to_string(),
    }
}

#[test]
fn blank_site_fields_take_new_api_defaults() {
    let s = site_from_form(&site_fields("  AnyRouter ", " https://anyrouter.top ")).unwrap();
    assert_eq!(s.name, "AnyRouter");
    assert_eq!(s.domain, "https://anyrouter.top");
    assert_eq!(s.login_path, "/login");
    assert_eq!(s.sign_in_path, None);
    assert_eq!(s.user_info_path, "/api/user/self");
    assert_eq!(s.tokens_path, "/api/token/");
    assert_eq!(s.logs_path, "/api/log/self");
    assert_eq!(s.chart_path, "/api/data/self");
    assert_eq!(s.api_user_key, "new-api-user");
}

#[test]
fn typed_site_paths_are_kept_trimmed() {
    let mut f = site_fields("A", "http://a.example");
    f.sign_in_path = " /api/user/sign_in ".to_string();
    f.login_path = "/signin".to_string();
    f.api_user_key = " veloera-user ".to_string();
    let s = site_from_form(&f).unwrap();
    assert_eq!(s.sign_in_path.as_deref(), Some("/api/user/sign_in"));
    assert_eq!(s.login_path, "/signin");
    assert_eq!(s.api_user_key, "veloera-user");
}

#[test]
fn site_needs_name_domain_and_http_scheme() {
    assert_eq!(site_from_form(&site_fields("  ", "https://a")).unwrap_err(), FormError::SiteRequired);
    assert_eq!(site_from_form(&site_fields("A", "   ")).unwrap_err(), FormError::SiteRequired);
    assert_eq!(site_from_form(&site_fields("A", "ftp://a")).unwrap_err(), FormError::DomainScheme);
    assert_eq!(site_from_form(&site_fields("A", "anyrouter.top")).unwrap_err(), FormError::DomainScheme);
    assert_eq!(FormError::SiteRequired.message(), "站点名称和域名为必填项");
    assert_eq!(FormError::DomainScheme.message(), "域名必须以 http:// 或 https:// 开头");
}

#[test]
fn cookie_account_keeps_only_the_cookie() {
    let f = account_fields(" main ", " 123 ", " session=abc ", "user", "pw");
    let a = account_from_form(7, &f, CredMethod::Cookie).unwrap();
    assert_eq!(a.site_id, 7);
    assert_eq!(a.name, "main");
    assert_eq!(a.api_user, "123");
    assert_eq!(a.cookies.as_deref(), Some("session=abc"));
    assert_eq!(a.username, None);
    assert_eq!(a.password, None);
}

#[test]
fn login_account_keeps_only_the_login() {
    let f = account_fields("main", "123", "session=abc", " user ", " pw ");
    let a = account_from_form(7, &f, CredMethod::Password).unwrap();
    assert_eq!(a.cookies, None);
    assert_eq!(a.username.as_deref(), Some("user"));
    assert_eq!(a.password.as_deref(), Some("pw"));
}

#[test]
fn account_errors_follow_the_chosen_method() {
    let f = account_fields("", "123", "c", "u", "p");
    assert_eq!(account_from_form(1, &f, CredMethod::Cookie).unwrap_err(), FormError::AccountRequired);
    let f = account_fields("n", "123", "  ", "u", "p");
    assert_eq!(account_from_form(1, &f, CredMethod::Cookie).unwrap_err(), FormError::CookieRequired);
    assert!(account_from_form(1, &f, CredMethod::Password).is_ok());
    let f = account_fields("n", "123", "c", "u", "");
    assert_eq!(account_from_form(1, &f, CredMethod::Password).unwrap_err(), FormError::LoginRequired);
    assert_eq!(FormError::AccountRequired.message(), "账户名称和 API 用户标识为必填项");
    assert_eq!(FormError::CookieRequired.message(), "请填写 Cookie");
    assert_eq!(FormError::LoginRequired.message(), "请同时填写用户名和密码");
}

#[test]
fn nonempty_or_trims_or_falls_back() {
    assert_eq!(nonempty_or("  /x  ", "/d"), "/x");
    assert_eq!(nonempty_or(" \t ", "/d"), "/d");
    assert_eq!(nonempty_or("", "/d"), "/d");
}


#[test]
fn first_front_end_site_dialog() {
    let s = storage_site_from_form(&site_fields(" A ", "https://a.example")).unwrap();
    assert_eq!(s.name, "A");
    assert_eq!(s.login_path, "/login");
    assert_eq!(s.sign_in_path, None);
    assert_eq!(storage_site_from_form(&site_fields("", "https://a")).unwrap_err(), "名称与域名为必填");
    assert_eq!(
        storage_site_from_form(&site_fields("A", "a.example")).unwrap_err(),
        "域名需以 http:// 或 https:// 开头"
    );
}

#[test]
fn first_front_end_account_dialog() {
    let none = || None::<String>;
    assert_eq!(
        account_input_from_dialog(1, " ", "1", "u", "p", None, none(), none(), "t".into()).unwrap_err(),
        "名称与 API 用户标识为必填"
    );
    assert_eq!(
        account_input_from_dialog(1, "n", "1", "  ", "", None, none(), none(), "t".into()).unwrap_err(),
        "请粘贴 Cookie 或填写用户名+密码"
    );
    let a = account_input_from_dialog(
        3,
        " main ",
        " 42 ",
        " typed ",
        " pw ",
        Some("[{\"name\":\"session\"}]".to_string()),
        Some("from-cookie".to_string()),
        Some("cookie-pw".to_string()),
        "2025-06-01T00:00:00+08:00".into(),
    )
    .unwrap();
    assert_eq!((a.site_id, a.name.as_str(), a.api_user.as_str()), (3, "main", "42"));
    assert_eq!(a.username.as_deref(), Some("typed"));
    assert_eq!(a.password.as_deref(), Some(" pw "));
    assert_eq!(a.cookie_issued_at.as_deref(), Some("2025-06-01T00:00:00+08:00"));
    assert_eq!(a.cookie_expires_at, None);
    let b = account_input_from_dialog(3, "m", "4", "", "", None, Some("cu".into()), Some("cp".into()), "t".into()).unwrap();
    assert_eq!((b.username.as_deref(), b.password.as_deref()), (Some("cu"), Some("cp")));
    assert_eq!((b.cookies_json, b.cookie_issued_at), (None, None));
}
