use anyrouter::balance::hex_decode;
use anyrouter::balance::{balance_fingerprint, balances_changed, hex_encode, saved_fingerprint};

#[test]
fn hex_encoding_is_lower_case_two_digits_per_byte() {
    assert_eq!(hex_encode(&[0xAB, 0xCD]), "abcd");
    assert_eq!(hex_encode(&[0x00, 0x0f, 0xf0, 0xff]), "000ff0ff");
    assert_eq!(hex_encode(&[]), "");
}

#[test]
fn fingerprint_is_first_sixteen_hex_digits_of_sha256() {
    assert_eq!(balance_fingerprint("{}"), "44136fa355b3678a");
    assert_eq!(balance_fingerprint(""), "e3b0c44298fc1c14");
    assert_eq!(balance_fingerprint("{\"account_1\":5.1,\"account_2\":3.2}"), "549b838220dae6e4");
    assert_eq!(balance_fingerprint("{}").len(), 16);
}

#[test]
fn saved_fingerprint_is_trimmed_or_absent() {
    assert_eq!(saved_fingerprint("  a1b2c3d4e5f67890\n"), Some("a1b2c3d4e5f67890".to_string()));
    assert_eq!(saved_fingerprint(" \n"), None);
    assert_eq!(saved_fingerprint(""), None);
}

#[test]
fn change_is_detected_on_first_run_or_new_fingerprint() {
    assert!(balances_changed(&None, "abc"));
    assert!(balances_changed(&Some("abc".to_string()), "abd"));
    assert!(!balances_changed(&Some("abc".to_string()), "abc"));
}

#[test]
fn hex_decoding_accepts_both_cases_and_rejects_bad_text() {
    assert_eq!(hex_decode("abCD01"), Some(vec![0xab, 0xcd, 0x01]));
    assert_eq!(hex_decode(""), Some(vec![]));
    assert_eq!(hex_decode("abc"), None);
    assert_eq!(hex_decode("zz"), None);
    assert_eq!(hex_decode("é1"), None);
}
