use anyrouter::waf::{build_node_script, challenge_script, is_challenge_page, script_tags_misordered, node_result, waf_cookies, ChallengePage, NODE_EPILOGUE, NODE_PRELUDE};

#[test]
fn plain_reply_is_not_a_challenge() {
    assert_eq!(challenge_script("{\"success\":true}"), ChallengePage::NotChallenge);
    assert_eq!(challenge_script(""), ChallengePage::NotChallenge);
}

#[test]
fn challenge_script_is_cut_between_first_tags() {
    let html = "<html><script>var arg1='ABC';go();</script><script>x()</script></html>";
    assert_eq!(challenge_script(html), ChallengePage::Script("var arg1='ABC';go();".to_string()));
    let unicode = "页面 acw_sc__v2 <script>é();</script>";
    assert_eq!(challenge_script(unicode), ChallengePage::Script("é();".to_string()));
}

#[test]
fn challenge_without_tags_is_reported() {
    assert_eq!(challenge_script("arg1 but no script"), ChallengePage::NoScriptStart);
    assert_eq!(challenge_script("acw_sc__v2 <script> never closed"), ChallengePage::NoScriptEnd);
}

#[test]
fn node_program_wraps_the_script() {
    let program = build_node_script("var a = 1;");
    assert_eq!(program, format!("{}var a = 1;{}", NODE_PRELUDE, NODE_EPILOGUE));
    assert!(program.starts_with("\nvar __acw_result = '';\nvar document = {};"));
    assert!(program.ends_with("var a = 1;\n;process.stdout.write(__acw_result);\n"));
}

#[test]
fn node_output_becomes_the_cookie() {
    assert_eq!(node_result(true, "  abc123\n"), Some("abc123".to_string()));
    assert_eq!(node_result(true, " \n"), None);
    assert_eq!(node_result(false, "abc"), None);
    assert_eq!(waf_cookies(Some("abc123".to_string())), Some(vec![("acw_sc__v2".to_string(), "abc123".to_string())]));
    assert_eq!(waf_cookies(Some(String::new())), None);
    assert_eq!(waf_cookies(None), None);
}

#[test]
fn plain_page_with_misordered_tags_is_no_challenge() {
    let html = "<html></script> ok <script>x</html>";
    assert!(!is_challenge_page(html));
    assert!(script_tags_misordered(html));
    assert_eq!(challenge_script(html), ChallengePage::NotChallenge);
    assert!(is_challenge_page("var arg1='x';"));
    assert!(!script_tags_misordered("<script>a</script>"));
    assert!(script_tags_misordered("</script><script>"));
}
