use anyrouter::notify::{parse_reference_email_config, EmailFileConfig, EmailNotifier};

#[test]
fn parses_reference_email_config_with_chinese_labels() {
    let parsed = parse_reference_email_config(
        r#"
            "发送方邮箱": "sender@qq.com",
            "16位授权码": "abcdefghijklmnop",
            "接收邮件的邮箱": "receiver@qq.com",
            "sender": "",
            "邮件服务器地址": "smtp.qq.com"
            "#,
    )
    .unwrap();

    assert_eq!(parsed.user.as_deref(), Some("sender@qq.com"));
    assert_eq!(parsed.pass.as_deref(), Some("abcdefghijklmnop"));
    assert_eq!(parsed.to.as_deref(), Some("receiver@qq.com"));
    assert_eq!(parsed.sender.as_deref(), Some(""));
    assert_eq!(parsed.smtp_server.as_deref(), Some("smtp.qq.com"));
}

#[test]
fn reference_config_accepts_english_labels_bom_and_trims_values() {
    let parsed = parse_reference_email_config(
        "\u{feff}\"email_user\": \" a@b.com \", \"user\": \"ignored\", \"to\": \"c@d.com\"\n",
    )
    .unwrap();
    assert_eq!(parsed.user.as_deref(), Some("a@b.com"));
    assert_eq!(parsed.to.as_deref(), Some("c@d.com"));
    assert_eq!(parsed.pass, None);
    assert_eq!(parsed.sender, None);
    assert_eq!(parsed.smtp_server, None);
}

#[test]
fn reference_config_rejects_malformed_or_unrelated_text() {
    assert!(parse_reference_email_config("not json at all").is_none());
    assert!(parse_reference_email_config("\"user\": 5").is_none());
    assert!(parse_reference_email_config("\"other\": \"x\"").is_none());
    assert!(parse_reference_email_config("").is_none());
}

#[test]
fn notifier_from_reference_settings_is_configured() {
    let parsed: EmailFileConfig = parse_reference_email_config(
        "\"发送方邮箱\": \"sender@qq.com\", \"16位授权码\": \"code\", \"接收邮件的邮箱\": \"r@qq.com\"",
    )
    .unwrap();
    let n = EmailNotifier::from_file_config(&parsed);
    assert!(n.is_configured());
    assert_eq!(n.email_sender, "sender@qq.com");
    assert_eq!(n.smtp_server_to_use(), "smtp.qq.com");
}

#[test]
fn unconfigured_notifier_refuses_to_send() {
    let none = EmailNotifier::from_parts(String::new(), String::new(), String::new(), String::new(), String::new());
    assert_eq!(none.send_refusal().as_deref(), Some("Email configuration not set"));
    let set = EmailNotifier::from_parts(
        "a@qq.com".to_string(),
        "pw".to_string(),
        "b@x.com".to_string(),
        String::new(),
        String::new(),
    );
    assert_eq!(set.send_refusal(), None);
}
