use anyrouter::text::parse_i64;

#[test]
fn decimal_ids_parse_like_i64_from_str() {
    let cases: [(&str, Option<i64>); 14] = [
        ("0", Some(0)),
        ("42", Some(42)),
        ("+7", Some(7)),
        ("-15", Some(-15)),
        ("9223372036854775807", Some(i64::MAX)),
        ("-9223372036854775808", Some(i64::MIN)),
        ("9223372036854775808", None),
        ("-9223372036854775809", None),
        ("", None),
        ("-", None),
        ("+", None),
        (" 1", None),
        ("1a", None),
        ("12345678901234567890123x", None),
    ];
    for (text, expected) in cases {
        assert_eq!(parse_i64(text), expected, "{}", text);
        assert_eq!(text.parse::<i64>().ok(), expected, "{}", text);
    }
}
