use anyrouter::service::CheckinScope;
use anyrouter::app_state::{
    cookie_badge, cookie_badge_for, AppState, AppView, CheckInStatus, LogLevel, Tone, LOG_DROP, MAX_LOGS,
};
use anyrouter::cookie::CookieStatus;
use anyrouter::storage::{Account, Site};

fn site(id: i64) -> Site {
    Site {
        id,
        name: format!("s{}", id),
        domain: "https://x".to_string(),
        login_path: "/login".to_string(),
        sign_in_path: None,
        user_info_path: "/api/user/self".to_string(),
        tokens_path: "/api/token/".to_string(),
        logs_path: "/api/log/self".to_string(),
        chart_path: "/api/data/self".to_string(),
        api_user_key: "new-api-user".to_string(),
        created_at: String::new(),
        updated_at: String::new(),
    }
}

fn account(id: i64, site_id: i64) -> Account {
    Account {
        id,
        site_id,
        name: format!("a{}", id),
        api_user: "1".to_string(),
        username: None,
        password: None,
        cookies_json: None,
        cookie_issued_at: None,
        cookie_expires_at: None,
        created_at: String::new(),
        updated_at: String::new(),
    }
}

#[test]
fn new_state_is_idle_on_home() {
    let s = AppState::new(vec![site(1)], vec![account(10, 1), account(11, 1)]);
    assert_eq!(s.status_of(10), CheckInStatus::Idle);
    assert_eq!(s.status_of(99), CheckInStatus::Idle);
    assert_eq!(s.total_accounts(), 2);
    assert_eq!(s.view, AppView::Home);
    assert!(!s.is_running);
    assert_eq!(s.account_by_id(11).unwrap().name, "a11");
    assert!(s.account_by_id(12).is_none());
    assert_eq!(s.site_by_id(1).unwrap().name, "s1");
    assert_eq!(s.accounts_of_site(1).len(), 2);
    assert_eq!(s.accounts_of_site(2).len(), 0);
}

#[test]
fn results_are_counted_and_reset() {
    let mut s = AppState::new(vec![site(1)], vec![account(10, 1), account(11, 1)]);
    s.set_status(10, CheckInStatus::Running);
    assert_eq!(s.status_of(10), CheckInStatus::Running);
    s.process_result(10, true, None);
    s.process_result(11, false, None);
    s.process_result(12, false, Some("401".to_string()));
    assert_eq!(s.success_count, 1);
    assert_eq!(s.fail_count, 2);
    assert_eq!(s.status_of(10), CheckInStatus::Success);
    assert_eq!(s.status_of(11), CheckInStatus::Failed("unknown".to_string()));
    assert_eq!(s.status_of(12), CheckInStatus::Failed("401".to_string()));
    s.reset_for_new_run();
    assert_eq!(s.success_count, 0);
    assert_eq!(s.fail_count, 0);
    for id in [10, 11, 12, 13] {
        assert_eq!(s.status_of(id), CheckInStatus::Idle);
    }
}

#[test]
fn log_buffer_drops_oldest_batch_past_its_bound() {
    let mut s = AppState::new(vec![], vec![]);
    for i in 0..MAX_LOGS {
        s.add_log(LogLevel::Info, "t", &format!("m{}", i), String::new());
    }
    assert_eq!(s.logs.len(), MAX_LOGS);
    s.add_log(LogLevel::Error, "t", "last", "12:00:00.000".to_string());
    assert_eq!(s.logs.len(), MAX_LOGS + 1 - LOG_DROP);
    assert_eq!(s.logs[0].message, format!("m{}", LOG_DROP));
    assert_eq!(s.logs.last().unwrap().message, "last");
    assert_eq!(s.logs.last().unwrap().level, LogLevel::Error);
    s.clear_logs();
    assert!(s.logs.is_empty());
}

#[test]
fn replacing_data_keeps_statuses_of_remaining_accounts() {
    let mut s = AppState::new(vec![site(1)], vec![account(10, 1), account(11, 1)]);
    s.set_status(10, CheckInStatus::Success);
    s.set_status(11, CheckInStatus::Running);
    s.replace_data(vec![site(1), site(2)], vec![account(10, 1), account(12, 2)]);
    assert_eq!(s.status_of(10), CheckInStatus::Success);
    assert_eq!(s.status_of(11), CheckInStatus::Idle);
    assert_eq!(s.status_of(12), CheckInStatus::Idle);
    assert_eq!(s.sites.len(), 2);
    assert_eq!(s.accounts_of_site(2).len(), 1);
}

#[test]
fn checkin_scope_selects_accounts_with_known_sites() {
    let sites = vec![site(1), site(2)];
    let accounts = vec![account(10, 1), account(11, 2), account(12, 3), account(13, 1)];
    assert_eq!(CheckinScope::All.select(&sites, &accounts), vec![10, 11, 13]);
    assert_eq!(CheckinScope::Site(1).select(&sites, &accounts), vec![10, 13]);
    assert_eq!(CheckinScope::Account(11).select(&sites, &accounts), vec![11]);
    assert_eq!(CheckinScope::Account(12).select(&sites, &accounts), Vec::<i64>::new());
    assert!(CheckinScope::Site(3).includes(&accounts[2]));
}

#[test]
fn log_filter_keeps_matching_lines_in_order() {
    let mut s = AppState::new(vec![site(1)], vec![]);
    s.add_log(LogLevel::Info, "t", "a", String::new());
    s.add_log(LogLevel::Error, "t", "b", String::new());
    s.add_log(LogLevel::Info, "t", "c", String::new());
    let all: Vec<&str> = s.visible_logs(None).iter().map(|e| e.message.as_str()).collect();
    assert_eq!(all, vec!["a", "b", "c"]);
    let info: Vec<&str> = s.visible_logs(Some(LogLevel::Info)).iter().map(|e| e.message.as_str()).collect();
    assert_eq!(info, vec!["a", "c"]);
    assert!(s.visible_logs(Some(LogLevel::Debug)).is_empty());
}

#[test]
fn log_tags_and_tones() {
    assert_eq!(LogLevel::Info.tag(), "INFO");
    assert_eq!(LogLevel::Success.tag(), "OK");
    assert_eq!(LogLevel::Warn.tag(), "WARN");
    assert_eq!(LogLevel::Error.tag(), "ERR");
    assert_eq!(LogLevel::Debug.tag(), "DBG");
    assert_eq!(LogLevel::Error.tone(), Tone::Danger);
    assert_eq!(LogLevel::Debug.tone(), Tone::Muted);
}

#[test]
fn status_badges() {
    assert_eq!(CheckInStatus::Idle.badge(), ("空闲".to_string(), Tone::Muted));
    assert_eq!(CheckInStatus::Running.badge(), ("签到中".to_string(), Tone::Warning));
    assert_eq!(CheckInStatus::Success.badge(), ("成功".to_string(), Tone::Success));
    assert_eq!(CheckInStatus::Failed("x".into()).badge(), ("失败".to_string(), Tone::Danger));
    assert_eq!(CheckInStatus::Running.card_badge(), ("Running...".to_string(), Tone::Warning));
    assert_eq!(CheckInStatus::Failed("x".into()).card_badge(), ("Failed".to_string(), Tone::Danger));
}

#[test]
fn cookie_badges() {
    assert_eq!(cookie_badge_for(false, CookieStatus::Valid), ("待登录".to_string(), Tone::Warning));
    assert_eq!(cookie_badge_for(true, CookieStatus::Valid), ("有效".to_string(), Tone::Success));
    assert_eq!(cookie_badge_for(true, CookieStatus::ExpiringSoon), ("即将到期".to_string(), Tone::Warning));
    assert_eq!(cookie_badge_for(true, CookieStatus::Expired), ("已过期".to_string(), Tone::Danger));
    assert_eq!(cookie_badge(true, None), ("会话期".to_string(), Tone::Muted));
    assert_eq!(cookie_badge(true, Some("2000-01-01T00:00:00+00:00")), ("已过期".to_string(), Tone::Danger));
    assert_eq!(cookie_badge(false, Some("2000-01-01T00:00:00+00:00")), ("待登录".to_string(), Tone::Warning));
}

#[test]
fn sites_count_accounts_without_cookie() {
    let mut with_cookie = account(11, 1);
    with_cookie.cookies_json = Some("[]".to_string());
    let s = AppState::new(vec![site(1), site(2)], vec![account(10, 1), with_cookie, account(12, 2)]);
    assert_eq!(s.accounts_needing_cookie(1), 1);
    assert_eq!(s.accounts_needing_cookie(2), 1);
    assert_eq!(s.accounts_needing_cookie(3), 0);
}

fn last(s: &AppState) -> (LogLevel, String, String) {
    let e = s.logs.last().unwrap();
    (e.level, e.tag.clone(), e.message.clone())
}

#[test]
fn a_run_starts_once_and_reports_its_counts() {
    let mut s = AppState::new(vec![site(1)], vec![account(10, 1), account(11, 1)]);
    s.set_status(10, CheckInStatus::Success);
    assert!(s.begin_run("t".to_string()));
    assert!(s.is_running);
    assert_eq!(s.status_of(10), CheckInStatus::Idle);
    assert_eq!(last(&s), (LogLevel::Info, "System".to_string(), "开始签到...".to_string()));
    let n = s.logs.len();
    assert!(!s.begin_run("t".to_string()));
    assert_eq!(s.logs.len(), n);
    s.mark_running(10, "t".to_string());
    assert_eq!(s.status_of(10), CheckInStatus::Running);
    assert_eq!(last(&s), (LogLevel::Info, "a10".to_string(), "签到开始".to_string()));
    s.log_launch(2, "t".to_string());
    assert_eq!(last(&s).2, "启动 Playwright,共 2 个账户...");
    assert_eq!(s.accept_result_name("10", "t".to_string()), Some(10));
    assert_eq!(s.accept_result_name("x1", "t".to_string()), None);
    assert_eq!(last(&s), (LogLevel::Warn, "System".to_string(), "收到无法识别的结果标识: x1".to_string()));
    s.record_result(10, true, None, "t".to_string());
    assert_eq!(last(&s), (LogLevel::Success, "a10".to_string(), "签到成功".to_string()));
    s.record_result(99, false, None, "t".to_string());
    assert_eq!(last(&s), (LogLevel::Error, "99".to_string(), "签到失败: unknown error".to_string()));
    assert_eq!(s.status_of(99), CheckInStatus::Failed("unknown".to_string()));
    s.record_missing_result(11, "t".to_string());
    assert_eq!(s.status_of(11), CheckInStatus::Failed("无结果".to_string()));
    assert_eq!(last(&s), (LogLevel::Error, "a11".to_string(), "签到器未返回结果".to_string()));
    assert_eq!((s.success_count, s.fail_count), (1, 2));
    s.finish_run("t".to_string());
    assert!(!s.is_running);
    assert_eq!(last(&s), (LogLevel::Info, "System".to_string(), "签到完成:成功 1,失败 2".to_string()));
}

#[test]
fn a_failed_runner_fails_every_dispatched_account() {
    let mut s = AppState::new(vec![site(1)], vec![account(10, 1), account(11, 1), account(12, 1)]);
    assert!(s.begin_run("t".to_string()));
    s.record_run_error(&vec![10, 11], "spawn failed", "t".to_string());
    assert_eq!(s.status_of(10), CheckInStatus::Failed("spawn failed".to_string()));
    assert_eq!(s.status_of(11), CheckInStatus::Failed("spawn failed".to_string()));
    assert_eq!(s.status_of(12), CheckInStatus::Idle);
    assert_eq!(s.fail_count, 2);
    assert_eq!(last(&s), (LogLevel::Error, "System".to_string(), "Playwright 运行失败: spawn failed".to_string()));
    let mut e = AppState::new(vec![], vec![]);
    assert!(e.begin_run("t".to_string()));
    e.abandon_run("t".to_string());
    assert!(!e.is_running);
    assert_eq!(last(&e), (LogLevel::Warn, "System".to_string(), "没有匹配的账户可签到".to_string()));
}

#[test]
fn logins_need_credentials_and_record_their_outcome() {
    let mut with_login = account(11, 1);
    with_login.username = Some("u".to_string());
    with_login.password = Some("p".to_string());
    let mut orphan = account(12, 9);
    orphan.username = Some("u".to_string());
    orphan.password = Some("p".to_string());
    let mut s = AppState::new(vec![site(1)], vec![account(10, 1), with_login, orphan]);
    assert!(!s.login_ready(10));
    assert!(s.login_ready(11));
    assert!(!s.login_ready(12));
    assert!(!s.login_ready(13));
    s.begin_login(10, "t".to_string());
    assert_eq!(s.status_of(10), CheckInStatus::Running);
    assert_eq!(last(&s), (LogLevel::Info, "a10".to_string(), "账密登录中...".to_string()));
    s.refuse_login(10, "t".to_string());
    assert_eq!(s.status_of(10), CheckInStatus::Failed("缺少账号密码".to_string()));
    assert_eq!(last(&s).2, "账密登录需要先填写用户名和密码");
    s.record_login(11, Ok(Some((true, None))), "t".to_string());
    assert_eq!(s.status_of(11), CheckInStatus::Success);
    assert_eq!(last(&s), (LogLevel::Success, "a11".to_string(), "账密登录成功,已更新 Cookie".to_string()));
    s.record_login(11, Ok(Some((false, None))), "t".to_string());
    assert_eq!(s.status_of(11), CheckInStatus::Failed("登录失败".to_string()));
    assert_eq!(last(&s).2, "账密登录失败: 登录失败");
    s.record_login(11, Ok(None), "t".to_string());
    assert_eq!(s.status_of(11), CheckInStatus::Failed("无结果".to_string()));
    assert_eq!(last(&s).2, "登录器未返回结果");
    s.record_login(13, Err("boom".to_string()), "t".to_string());
    assert_eq!(s.status_of(13), CheckInStatus::Failed("boom".to_string()));
    assert_eq!(last(&s), (LogLevel::Error, String::new(), "登录器运行失败: boom".to_string()));
    assert_eq!((s.success_count, s.fail_count), (0, 0));
}

#[test]
fn returned_session_renews_only_when_it_changed() {
    use_renewal();
}

fn use_renewal() {
    let c = |v: &[(&str, &str)]| v.iter().map(|(n, x)| (n.to_string(), x.to_string())).collect::<Vec<_>>();
    let back = c(&[("acw_tc", "1"), ("session", "new"), ("session", "later")]);
    assert_eq!(anyrouter::service::cookie_renewal(&back, Some("old".to_string()), false), Some(1));
    assert_eq!(anyrouter::service::cookie_renewal(&back, None, false), Some(1));
    assert_eq!(anyrouter::service::cookie_renewal(&back, Some("new".to_string()), false), None);
    assert_eq!(anyrouter::service::cookie_renewal(&back, Some("new".to_string()), true), Some(1));
    assert_eq!(anyrouter::service::cookie_renewal(&c(&[("acw_tc", "1")]), None, true), None);
}
