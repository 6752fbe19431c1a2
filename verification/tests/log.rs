use anyrouter::log::{file_log_settings, fits_in_file, log_file_name, raw, warn_f, FileLogConfig, Level, LogConfig, LogRecord, DEFAULT_MAX_FILE_SIZE};

#[test]
fn colorizes_only_level_in_console_output() {
    let record = LogRecord {
        level: Level::Warn,
        prefix: Some("demo".to_string()),
        message: "message".to_string(),
        raw: false,
    };

    let rendered = record.render_console("2026-06-13 12:00:00.000", true);

    assert!(rendered.contains("\x1b[33m[WARN]\x1b[0m"));
    assert!(!rendered.starts_with("\x1b[33m"));
    assert!(rendered.contains(" [demo] message"));
}

#[test]
fn parses_logging_config_from_toml_content() {
    // [logging] path = "custom-logs", max_file_size_mb = 2
    let logging = FileLogConfig { log_dir: None, path: Some("custom-logs".to_string()), max_file_size: None, max_file_size_mb: Some(2) };
    assert_eq!(logging.path.as_deref(), Some("custom-logs"));
    assert_eq!(logging.max_file_size_mb, Some(2));
    let config = LogConfig::from_config_file(Some(logging));
    assert_eq!(config.directory, "custom-logs");
    assert_eq!(config.max_file_size, 2 * 1024 * 1024);
}

#[test]
fn file_settings_override_defaults_in_order() {
    let defaults = LogConfig::from_config_file(None);
    assert_eq!(defaults.directory, "logs");
    assert_eq!(defaults.max_file_size, DEFAULT_MAX_FILE_SIZE);
    let both = FileLogConfig {
        log_dir: Some("a".to_string()),
        path: Some("b".to_string()),
        max_file_size: Some(0),
        max_file_size_mb: None,
    };
    let c = LogConfig::from_config_file(Some(both));
    assert_eq!(c.directory, "a");
    assert_eq!(c.max_file_size, 1);
    let zero_mb = FileLogConfig { log_dir: None, path: None, max_file_size: Some(5), max_file_size_mb: Some(0) };
    assert_eq!(LogConfig::from_config_file(Some(zero_mb)).max_file_size, 1024 * 1024);
}

#[test]
fn file_lines_and_console_lines() {
    let r = warn_f("demo", "careful");
    assert_eq!(r.render("T"), "[T] [WARN] [demo] careful");
    assert_eq!(r.render_console("T", false), "[T] [WARN] [demo] careful");
    let plain = LogRecord { level: Level::Info, prefix: Some(String::new()), message: "m".to_string(), raw: false };
    assert_eq!(plain.render("T"), "[T] [INFO] m");
    assert_eq!(LogRecord::raw_record("as is").render_console("T", true), "as is");
}

#[test]
fn rotation_names_and_limits() {
    assert_eq!(log_file_name("all", 0), "all.log");
    assert_eq!(log_file_name("info", 2), "info-2.log");
    assert!(fits_in_file(0, 500, 120));
    assert!(fits_in_file(60, 60, 120));
    assert!(!fits_in_file(61, 60, 120));
    assert!(!fits_in_file(1, u64::MAX, 120));
}

#[test]
fn top_level_log_dir_stands_in_for_the_section() {
    let sec = |dir: Option<&str>, path: Option<&str>| FileLogConfig {
        log_dir: dir.map(str::to_string),
        path: path.map(str::to_string),
        max_file_size: None,
        max_file_size_mb: Some(2),
    };
    let top = Some("top".to_string());
    let c = LogConfig::from_config_file(Some(file_log_settings(Some(sec(None, Some("p"))), None, top.clone())));
    assert_eq!(c.directory, "top");
    assert_eq!(c.max_file_size, 2 * 1024 * 1024);
    let c = LogConfig::from_config_file(Some(file_log_settings(Some(sec(Some("own"), None)), Some(sec(Some("other"), None)), top.clone())));
    assert_eq!(c.directory, "own");
    let c = LogConfig::from_config_file(Some(file_log_settings(None, Some(sec(None, Some("p"))), None)));
    assert_eq!(c.directory, "p");
    let c = LogConfig::from_config_file(Some(file_log_settings(None, None, None)));
    assert_eq!(c.directory, "logs");
    let c = LogConfig::from_config_file(Some(file_log_settings(None, None, top)));
    assert_eq!(c.directory, "top");
    let r = raw("x");
    assert!(r.raw && r.level == Level::Info && r.prefix.is_none());
}
