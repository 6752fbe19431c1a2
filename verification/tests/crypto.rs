use anyrouter::core_crypto::Crypto as CoreCrypto;
use anyrouter::crypto::{Crypto, CryptoError};

const TEST_KEY: [u8; 32] = [7u8; 32];

#[test]
fn encrypt_decrypt_roundtrip() {
    let c = Crypto::from_key(&TEST_KEY);
    let blob = c.encrypt("session=abc; 中文✓").unwrap();
    assert_ne!(blob, b"session=abc");
    assert_eq!(c.decrypt(&blob).unwrap(), "session=abc; 中文✓");
}

#[test]
fn nonce_is_random_each_time() {
    let c = Crypto::from_key(&TEST_KEY);
    assert_ne!(c.encrypt("x").unwrap(), c.encrypt("x").unwrap());
}

#[test]
fn decrypt_garbage_fails() {
    let c = Crypto::from_key(&TEST_KEY);
    assert!(c.decrypt(b"short").is_err());
    assert!(c.decrypt(&[0u8; 40]).is_err());
}

#[test]
fn decrypt_with_wrong_key_fails() {
    let blob = Crypto::from_key(&TEST_KEY).encrypt("secret").unwrap();
    assert!(Crypto::from_key(&[8u8; 32]).decrypt(&blob).is_err());
}

#[test]
fn blob_is_nonce_then_ciphertext_with_tag() {
    let c = Crypto::from_key(&TEST_KEY);
    let blob = c.encrypt("abc").unwrap();
    assert_eq!(blob.len(), 12 + 3 + 16);
    let empty = c.encrypt("").unwrap();
    assert_eq!(empty.len(), 12 + 16);
    assert_eq!(c.decrypt(&empty).unwrap(), "");
}

#[test]
fn decrypt_errors_are_distinguished() {
    let c = Crypto::from_key(&TEST_KEY);
    assert_eq!(c.decrypt(&[1u8; 12]), Err(CryptoError::BlobTooShort));
    assert_eq!(c.decrypt(&[0u8; 40]), Err(CryptoError::DecryptFailed));
    let mut blob = c.encrypt("hello").unwrap();
    let last = blob.len() - 1;
    blob[last] ^= 1;
    assert_eq!(c.decrypt(&blob), Err(CryptoError::DecryptFailed));
    assert_eq!(CryptoError::BlobTooShort.message(), "密文长度异常");
    assert_eq!(CryptoError::DecryptFailed.message(), "解密失败: aead::Error");
    assert_eq!(CryptoError::NotUtf8.message(), "解密结果不是合法 UTF-8");
    assert_eq!(CryptoError::EncryptFailed.message(), "加密失败: aead::Error");
}

#[test]
fn stored_key_text_round_trips() {
    let key: [u8; 32] = core::array::from_fn(|i| i as u8);
    let text = Crypto::stored_text_of_key(&key);
    assert_eq!(text, "AAECAwQFBgcICQoLDA0ODxAREhMUFRYXGBkaGxwdHh8=");
    assert_eq!(Crypto::key_from_stored_text(&text), Some(key));
    let padded = format!("  {}\n", text);
    assert_eq!(Crypto::key_from_stored_text(&padded), Some(key));
}

#[test]
fn stored_key_text_must_hold_32_bytes() {
    assert_eq!(Crypto::key_from_stored_text("AAEC"), None);
    assert_eq!(Crypto::key_from_stored_text("not base64!"), None);
    assert_eq!(Crypto::key_from_stored_text(""), None);
}

#[test]
fn core_sealer_round_trips_bytes_and_text() {
    let key = [9u8; 32];
    let text = Crypto::stored_text_of_key(&key);
    assert!(!text.is_empty());
    let c = CoreCrypto::from_key_text(&CoreCrypto::key_text(&key)).unwrap();
    let blob = c.encrypt(b"\x00\x01binary").unwrap();
    assert_eq!(blob.len(), 12 + 8 + 16);
    assert_eq!(c.decrypt(&blob).unwrap(), b"\x00\x01binary".to_vec());
    let s = c.encrypt_string("cookie=1; 中文").unwrap();
    assert_eq!(c.decrypt_string(&s).unwrap(), "cookie=1; 中文");
}

#[test]
fn core_sealer_reports_its_errors() {
    let c = CoreCrypto::from_key_text(&"ab".repeat(32)).unwrap();
    assert_eq!(c.decrypt(&[0u8; 27]).unwrap_err(), "Ciphertext too short: expected at least 28 bytes, got 27");
    assert_eq!(c.decrypt(&[0u8; 40]).unwrap_err(), "Decryption failed: aead::Error");
    let not_text = c.encrypt(&[0xff, 0xfe]).unwrap();
    assert_eq!(c.decrypt_string(&not_text).unwrap_err(), "Decrypted data is not valid UTF-8");
    assert_eq!(CoreCrypto::from_key_text("zz").err().unwrap(), "Failed to decode master key from keyring");
    assert_eq!(
        CoreCrypto::from_key_text("abcd").err().unwrap(),
        "Invalid master key length in keyring: expected 32 bytes, got 2"
    );
    assert_eq!(CoreCrypto::key_text(&[0xAB; 32]), "ab".repeat(32));
}

#[test]
fn stored_key_text_is_standard_base64() {
    let mut key = [0u8; 32];
    for (i, b) in key.iter_mut().enumerate() {
        *b = i as u8;
    }
    assert_eq!(Crypto::stored_text_of_key(&key), "AAECAwQFBgcICQoLDA0ODxAREhMUFRYXGBkaGxwdHh8=");
    assert_eq!(Crypto::stored_text_of_key(&[0u8; 32]), format!("{}=", "A".repeat(43)));
}
