use anyrouter::gui_state::{
    account_saved_message, accounts_label, cookie_line, cookie_line_now, site_saved_message, sources_saved_message, sources_setting, stored_sources, DeleteTarget, LogLevel, RunTally,
};
use anyrouter::config_loader::source::SourceKind;
use anyrouter::models::Account;

fn account(issued: Option<&str>, expires: Option<&str>) -> Account {
    Account {
        id: 1,
        site_id: 1,
        name: "main".to_string(),
        api_user: "1".to_string(),
        username: None,
        password: None,
        cookies: None,
        cookie_issued_at: issued.map(|s| s.to_string()),
        cookie_expires_at: expires.map(|s| s.to_string()),
        created_at: String::new(),
        updated_at: String::new(),
    }
}

#[test]
fn account_list_cookie_lines() {
    let now = "2025-06-01T12:00:00+00:00";
    assert_eq!(cookie_line(&account(None, None), now), "无 Cookie");
    assert_eq!(cookie_line(&account(None, Some("2999-01-01T00:00:00Z")), now), "无 Cookie");
    assert_eq!(cookie_line(&account(Some("2025-05-01T00:00:00Z"), None), now), "Cookie（有效期未知）");
    assert_eq!(
        cookie_line(&account(Some("2025-05-01T00:00:00Z"), Some("2025-05-31T00:00:00+00:00")), now),
        "⚠ Cookie 已过期"
    );
    assert_eq!(
        cookie_line(&account(Some("2025-05-01T00:00:00Z"), Some("2025-07-01T08:00:00+08:00")), now),
        "Cookie 至 2025-07-01"
    );
    assert_eq!(
        cookie_line_now(&account(Some("2025-05-01T00:00:00Z"), Some("2999-05-01T10:00:00+08:00"))),
        "Cookie 至 2999-05-01"
    );
    assert_eq!(
        cookie_line_now(&account(Some("2000-01-01T00:00:00Z"), Some("2000-01-02T00:00:00Z"))),
        "⚠ Cookie 已过期"
    );
}

#[test]
fn site_card_account_label() {
    assert_eq!(accounts_label(3, 0), "账户：3 个");
    assert_eq!(accounts_label(12, 2), "账户：12 个（2 个 Cookie 过期 ⚠）");
    assert_eq!(accounts_label(0, 0), "账户：0 个");
}

#[test]
fn delete_confirmations_and_save_messages() {
    let site = DeleteTarget::Site { id: 1, name: "AnyRouter".to_string(), account_count: 3 };
    assert_eq!(
        site.prompt(),
        "确定删除站点「AnyRouter」？将同时删除其下 3 个账户及全部缓存数据，此操作不可恢复。"
    );
    assert_eq!(site.done_message(), "已删除站点「AnyRouter」");
    let account = DeleteTarget::Account { id: 2, name: "main".to_string() };
    assert_eq!(account.prompt(), "确定删除账户「main」？此操作不可恢复。");
    assert_eq!(account.done_message(), "已删除账户「main」");
    assert_eq!(site_saved_message(false, "A"), "已新建站点「A」");
    assert_eq!(site_saved_message(true, "A"), "已更新站点「A」");
    assert_eq!(account_saved_message(false, "m"), "已新增账户「m」");
    assert_eq!(account_saved_message(true, "m"), "已更新账户「m」");
}

#[test]
fn background_run_tally() {
    let mut t = RunTally::new();
    assert_eq!(RunTally::site_skipped("A"), (LogLevel::Info, "[A] 该站点暂无账户，跳过".to_string()));
    assert_eq!(RunTally::site_started("B", 2), (LogLevel::Info, "[B] 开始签到 2 个账户…".to_string()));
    assert_eq!(RunTally::site_unreadable("B", "io"), (LogLevel::Error, "[B] 读取账户失败: io".to_string()));
    assert_eq!(
        t.record("B", "main", true, None, " 余额 $1.50"),
        (LogLevel::Success, "[B] main 签到成功 余额 $1.50".to_string())
    );
    assert_eq!(t.record("B", "alt", false, None, ""), (LogLevel::Error, "[B] alt 签到失败：未知错误".to_string()));
    assert_eq!(
        t.record("B", "alt", false, Some("401".to_string()), ""),
        (LogLevel::Error, "[B] alt 签到失败：401".to_string())
    );
    assert_eq!(t.site_failed("C", "spawn", 3), (LogLevel::Error, "[C] 调用 Playwright 失败: spawn".to_string()));
    assert_eq!((t.success, t.fail), (1, 5));
    assert_eq!(t.summary(), (LogLevel::Info, "签到完成：成功 1 / 失败 5".to_string()));
}

#[test]
fn drawer_tags() {
    assert_eq!(LogLevel::Info.tag(), "[INFO]");
    assert_eq!(LogLevel::Success.tag(), "[OK]");
    assert_eq!(LogLevel::Warning.tag(), "[WARN]");
    assert_eq!(LogLevel::Error.tag(), "[ERR]");
}

#[test]
fn source_settings_are_stored_and_read_back() {
    assert_eq!(sources_setting(false, false, false), None);
    assert_eq!(sources_setting(true, true, true).as_deref(), Some("env,file,sqlite"));
    assert_eq!(sources_setting(false, true, true).as_deref(), Some("file,sqlite"));
    assert_eq!(sources_setting(true, false, false).as_deref(), Some("env"));
    let stored = sources_setting(true, false, true);
    assert_eq!(stored_sources(stored), vec![SourceKind::Env, SourceKind::Sqlite]);
    let all = vec![SourceKind::Env, SourceKind::File, SourceKind::Sqlite];
    assert_eq!(stored_sources(None), all);
    assert_eq!(stored_sources(Some("nothing,known".to_string())), all);
    assert_eq!(stored_sources(Some(" DB , file".to_string())), vec![SourceKind::Sqlite, SourceKind::File]);
    assert_eq!(sources_saved_message("env,file"), "数据源已更新: [env,file]（重启后完全生效）");
}

#[test]
fn account_list_titles() {
    assert_eq!(anyrouter::gui_state::account_list_title(true, Some("AnyRouter".to_string())), "AnyRouter");
    assert_eq!(anyrouter::gui_state::account_list_title(true, None), "未知站点");
    assert_eq!(anyrouter::gui_state::account_list_title(false, Some("AnyRouter".to_string())), "未连接");
}
