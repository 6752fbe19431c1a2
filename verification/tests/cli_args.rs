use anyrouter::cli_args::parse_sources;
use anyrouter::config_loader::source::SourceKind;

fn v(s: &[&str]) -> Vec<String> {
    s.iter().map(|x| x.to_string()).collect()
}

#[test]
fn default_is_all_three() {
    assert_eq!(
        parse_sources(v(&[])),
        vec![SourceKind::Env, SourceKind::File, SourceKind::Sqlite]
    );
}

#[test]
fn explicit_sources_respect_order() {
    assert_eq!(
        parse_sources(v(&["--sources", "sqlite,env"])),
        vec![SourceKind::Sqlite, SourceKind::Env]
    );
}

#[test]
fn skip_source_removes() {
    assert_eq!(
        parse_sources(v(&["--skip-source", "file"])),
        vec![SourceKind::Env, SourceKind::Sqlite]
    );
}

#[test]
fn unknown_lists_and_trailing_flags_are_ignored() {
    assert_eq!(
        parse_sources(v(&["--sources", "bogus,", "--skip-source", "DB", "--sources"])),
        vec![SourceKind::Env, SourceKind::File]
    );
    assert_eq!(
        parse_sources(v(&["--sources", "file, env", "--sources", "nothing", "x"])),
        vec![SourceKind::File, SourceKind::Env]
    );
}
