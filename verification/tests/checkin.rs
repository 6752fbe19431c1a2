use anyrouter::checkin::{
    format_check_in_email_report, format_check_in_report_item, format_cookie_report,
    format_user_info_summary, Amount, BalanceChangeSummary, BalanceSnapshot, CheckInReportItem,
    Direction,
};
use anyrouter::playwright::{CookieReport, CookieReportEntry};
use anyrouter::json::JsonValue;

#[test]
fn formats_cookie_report_summary() {
    let mut cookie = CookieReportEntry::default();
    cookie
        .set_name("session".to_string())
        .set_domain(Some("anyrouter.top".to_string()))
        .set_path(Some("/".to_string()))
        .set_source(Some("set-cookie+browser-context".to_string()))
        .set_expires_at(Some("2026-06-16T00:00:00Z".to_string()))
        .set_expires_in(Some("in 12h".to_string()))
        .set_same_site(Some("Lax".to_string()))
        .set_secure(true)
        .set_http_only(true)
        .set_is_session(false);

    let mut report = CookieReport::default();
    report
        .set_request_cookie_names(vec!["acw_tc".to_string()])
        .set_response_cookie_names(vec!["session".to_string()])
        .set_cookies(vec![cookie]);

    let summary = format_cookie_report(&report).unwrap();

    assert!(summary.contains("Login request cookies: acw_tc"));
    assert!(summary.contains("Login response Set-Cookie: session"));
    assert!(summary.contains("Cookie session: expires at 2026-06-16T00:00:00Z (in 12h)"));
    assert!(summary.contains("httpOnly=true"));
}

#[test]
fn blank_report_formats_to_none() {
    let mut report = CookieReport::default();
    assert_eq!(format_cookie_report(&report), None);
    report.set_note(Some("   ".to_string()));
    assert_eq!(format_cookie_report(&report), None);
}

#[test]
fn cookie_report_lifetimes_and_note() {
    let mut a = CookieReportEntry::default();
    a.set_name("sid".into()).set_is_session(true);
    let mut b = CookieReportEntry::default();
    b.set_name("m".into()).set_max_age_seconds(Some(-5)).set_domain(Some(String::new()));
    let mut c = CookieReportEntry::default();
    c.set_name("e".into()).set_expires_at(Some("T".into())).set_expires_in(Some(String::new()));
    let d = CookieReportEntry::default();
    let mut report = CookieReport::default();
    report.set_cookies(vec![a, b, c, d]).set_note(Some("  fine  ".into()));
    let text = format_cookie_report(&report).unwrap();
    assert_eq!(
        text,
        "Cookie sid: session cookie (no explicit expiry) [secure=false, httpOnly=false]\n\
         Cookie m: max-age=-5s [secure=false, httpOnly=false]\n\
         Cookie e: expires at T [secure=false, httpOnly=false]\n\
         Cookie : expiry unknown [secure=false, httpOnly=false]\n\
         Cookie note: fine"
    );
}

fn obj(members: Vec<(&str, JsonValue)>) -> JsonValue {
    JsonValue::Object(members.into_iter().map(|(k, v)| (k.to_string(), v)).collect())
}

fn text(s: &str) -> JsonValue {
    JsonValue::Str(s.to_string())
}

fn num(s: &str) -> JsonValue {
    JsonValue::Number(s.to_string())
}

#[test]
fn formats_known_user_info_fields() {
    // members in the order a decoded serde_json map yields them (sorted keys)
    let user_info = obj(vec![
        ("access_token", text("secret-token")),
        ("email", text("alice@example.com")),
        ("id", num("42")),
        ("quota", num("500000")),
        ("status", num("1")),
        ("username", text("alice")),
    ]);

    let summary = format_user_info_summary(Some(&user_info)).unwrap();

    assert!(summary.contains("ID: 42"));
    assert!(summary.contains("用户名: alice"));
    assert!(summary.contains("邮箱: alice@example.com"));
    assert!(summary.contains("状态: 1"));
    assert!(!summary.contains("quota"));
    assert!(!summary.contains("secret-token"));
    assert_eq!(summary, "ID: 42 | 用户名: alice | 邮箱: alice@example.com | 状态: 1");
}

#[test]
fn formats_nested_display_fields() {
    let user_info = obj(vec![
        ("group", obj(vec![("name", text("pro")), ("session", text("hidden"))])),
        ("level", text("gold")),
    ]);

    let summary = format_user_info_summary(Some(&user_info)).unwrap();

    assert!(summary.contains("分组: pro"));
    assert!(summary.contains("等级: gold"));
    assert!(!summary.contains("hidden"));
    assert_eq!(summary, "分组: pro | 等级: gold");
}

#[test]
fn user_summary_is_none_without_usable_fields() {
    assert_eq!(format_user_info_summary(None), None);
    assert_eq!(format_user_info_summary(Some(&text("alice"))), None);
    assert_eq!(format_user_info_summary(Some(&obj(vec![]))), None);
    let only_hidden = obj(vec![
        ("Password", text("x")),
        ("raw_quota", num("1")),
        ("name", text("   ")),
        ("extra", JsonValue::Null),
        ("list", JsonValue::Array(vec![num("1")])),
    ]);
    assert_eq!(format_user_info_summary(Some(&only_hidden)), None);
}

#[test]
fn user_summary_matches_keys_ignoring_case_and_caps_at_six() {
    let user_info = obj(vec![
        ("Display_Name", text(" Bob ")),
        ("ID", num("7")),
        ("a", JsonValue::Bool(true)),
        ("b", text("bee")),
        ("c", obj(vec![("Title", text("boss")), ("id", num("3"))])),
        ("d", text("dee")),
        ("e", text("eee")),
    ]);
    let summary = format_user_info_summary(Some(&user_info)).unwrap();
    assert_eq!(summary, "ID: 7 | 用户名: Bob | a: true | b: bee | c: boss | d: dee");
}

#[test]
fn user_summary_falls_through_candidate_keys() {
    // `user_id` is hidden neither by name nor value; `id` has no display text
    let user_info = obj(vec![
        ("id", text("")),
        ("nickname", text("nick")),
        ("uid", num("9")),
        ("user_id", JsonValue::Null),
    ]);
    let summary = format_user_info_summary(Some(&user_info)).unwrap();
    assert_eq!(summary, "ID: 9 | 用户名: nick");
}

fn money(x: f64) -> Amount {
    let direction = if x > 0.0 {
        Direction::Up
    } else if x < 0.0 {
        Direction::Down
    } else if x == 0.0 {
        Direction::Zero
    } else {
        Direction::Unordered
    };
    Amount { text: format!("{:.2}", x), magnitude: format!("{:.2}", x.abs()), direction }
}

fn snapshot(quota: f64, used: f64) -> BalanceSnapshot {
    BalanceSnapshot::new(money(quota), money(used))
}

fn change(reward: f64, usage: f64, balance: f64) -> BalanceChangeSummary {
    BalanceChangeSummary::new(money(reward), money(usage), money(balance))
}

#[test]
fn formats_success_account_report_with_before_and_after_balance() {
    let mut item = CheckInReportItem::new("主账号".to_string(), true);
    item.set_user_info(Some("ID: 42 | 用户名: alice".to_string()))
        .set_before(Some(snapshot(5.0, 1.2)))
        .set_after(Some(snapshot(5.5, 1.2)))
        .set_balance_change(Some(change(0.5, 0.0, 0.5)));

    let report = format_check_in_report_item(0, 1, &item);

    assert!(report.contains("账号 1/1: 主账号"));
    assert!(report.contains("状态: 签到成功"));
    assert!(report.contains("用户信息: ID: 42 | 用户名: alice"));
    assert!(report.contains("签到前: 余额 $5.00 | 累计消耗 $1.20"));
    assert!(report.contains("签到后: 余额 $5.50 | 累计消耗 $1.20"));
    assert!(report.contains("签到获得: +$0.50"));
    assert!(report.contains("余额变化: +$0.50"));
    assert!(!report.contains("失败信息"));
}

#[test]
fn formats_failed_account_report_with_error_and_partial_balance() {
    let mut item = CheckInReportItem::new("备用账号".to_string(), false);
    item.set_after(Some(snapshot(3.0, 0.75)))
        .set_error(Some("cookie expired".to_string()));

    let report = format_check_in_report_item(1, 2, &item);

    assert!(report.contains("账号 2/2: 备用账号"));
    assert!(report.contains("状态: 签到失败"));
    assert!(report.contains("失败信息: cookie expired"));
    assert!(report.contains("签到前: 未获取"));
    assert!(report.contains("签到后: 余额 $3.00 | 累计消耗 $0.75"));
    assert!(report.contains("余额变化: 无法计算"));
}

#[test]
fn formats_email_report_for_all_accounts() {
    let mut success = CheckInReportItem::new("主账号".to_string(), true);
    success
        .set_before(Some(snapshot(5.0, 1.0)))
        .set_after(Some(snapshot(5.2, 1.0)))
        .set_balance_change(Some(change(0.2, 0.0, 0.2)));

    let mut failed = CheckInReportItem::new("备用账号".to_string(), false);
    failed.set_error(Some("sign in api returned 401".to_string()));

    let email = format_check_in_email_report("2026-06-15 12:00:00", &[success, failed]);

    assert!(email.starts_with("AnyRouter 签到报告"));
    assert!(email.contains("执行时间: 2026-06-15 12:00:00"));
    assert!(email.contains("账户总数: 2"));
    assert!(email.contains("成功: 1/2"));
    assert!(email.contains("失败: 1/2"));
    assert!(email.contains("账号 1/2: 主账号"));
    assert!(email.contains("账号 2/2: 备用账号"));
    assert!(email.contains("失败信息: sign in api returned 401"));
}

#[test]
fn report_item_exact_layout_with_usage_and_losses() {
    let mut item = CheckInReportItem::new("a".to_string(), false);
    item.set_user_info(Some("   ".to_string()))
        .set_error(Some("  ".to_string()))
        .set_before(Some(snapshot(2.0, 0.5)))
        .set_after(Some(snapshot(1.25, 1.25)))
        .set_balance_change(Some(change(0.0, 0.75, -0.75)));
    let report = format_check_in_report_item(2, 3, &item);
    assert_eq!(
        report,
        "账号 3/3: a\n状态: 签到失败\n失败信息: 未知错误\n签到前: 余额 $2.00 | 累计消耗 $0.50\n\
         签到后: 余额 $1.25 | 累计消耗 $1.25\n签到获得: $0.00\n期间消耗: $0.75\n余额变化: -$0.75"
    );
}

#[test]
fn empty_email_report_says_there_are_no_accounts() {
    let email = format_check_in_email_report("t", &[]);
    assert_eq!(
        email,
        "AnyRouter 签到报告\n====================\n执行时间: t\n账户总数: 0\n成功: 0/0\n失败: 0/0\n\n账号明细\n--------\n无账号结果。"
    );
}

#[test]
fn email_report_separates_blocks_with_blank_lines() {
    let a = CheckInReportItem::new("x".to_string(), true);
    let b = CheckInReportItem::new("y".to_string(), true);
    let email = format_check_in_email_report("now", &[a, b]);
    assert!(email.contains("成功: 2/2\n失败: 0/2"));
    assert!(email.contains("余额变化: 无法计算\n\n账号 2/2: y"));
    assert!(email.ends_with("签到后: 未获取\n余额变化: 无法计算"));
}

#[test]
fn user_summary_hides_credentials_and_caps_at_six_parts() {
    let obj = |token: &str| {
        anyrouter::json::JsonValue::Object(vec![
            ("id".to_string(), anyrouter::json::JsonValue::Number("7".to_string())),
            ("access_token".to_string(), anyrouter::json::JsonValue::Str(token.to_string())),
            ("quota".to_string(), anyrouter::json::JsonValue::Number(token.len().to_string())),
            ("a".to_string(), anyrouter::json::JsonValue::Str("1".to_string())),
            ("b".to_string(), anyrouter::json::JsonValue::Str("2".to_string())),
            ("c".to_string(), anyrouter::json::JsonValue::Str("3".to_string())),
            ("d".to_string(), anyrouter::json::JsonValue::Str("4".to_string())),
            ("e".to_string(), anyrouter::json::JsonValue::Str("5".to_string())),
            ("f".to_string(), anyrouter::json::JsonValue::Str("6".to_string())),
        ])
    };
    let one = format_user_info_summary(Some(&obj("secret-one"))).unwrap();
    let two = format_user_info_summary(Some(&obj("another-secret"))).unwrap();
    assert_eq!(one, two);
    assert!(!one.contains("secret"));
    assert_eq!(one, "ID: 7 | a: 1 | b: 2 | c: 3 | d: 4 | e: 5");
    assert_eq!(one.split(" | ").count(), 6);
}
