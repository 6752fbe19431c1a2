//! Sealing of sensitive fields.  A value is encrypted with AES-256-GCM under
//! the master key and stored as `nonce (12 bytes) ‖ ciphertext`; opening such a
//! blob gives back exactly the text that was sealed.
use vstd::prelude::*;
use vstd::utf8::*;
use aes_gcm::aead::{Aead, AeadCore, KeyInit, OsRng};
use aes_gcm::{Aes256Gcm, Key, Nonce};
use base64::Engine;
use crate::text::{trim, trim_str, is_ws, lemma_trim_no_ws};

verus! {

/// Length of the nonce that leads every sealed blob.
pub const NONCE_LEN: usize = 12;

/// Longest plaintext, in bytes, that AES-GCM accepts (2^36 bytes).
pub const MAX_PLAINTEXT: u64 = 0x10_0000_0000;

#[verifier::external_type_specification]
#[verifier::external_body]
pub struct ExAeadError(aes_gcm::Error);

/// The ciphertext (with its 16-byte tag appended) that AES-256-GCM produces
/// for `plaintext` under `key` and `nonce`, with no associated data.
pub uninterp spec fn gcm_seal(key: Seq<u8>, nonce: Seq<u8>, plaintext: Seq<u8>) -> Seq<u8>;

/// What AES-256-GCM decryption of `ciphertext` under `key` and `nonce` yields:
/// the plaintext where the tag authenticates, nothing otherwise.
pub uninterp spec fn gcm_open(key: Seq<u8>, nonce: Seq<u8>, ciphertext: Seq<u8>) -> Option<Seq<u8>>;

/// `Aead::encrypt` of `Aes256Gcm`.  It fails exactly on plaintexts longer
/// than 2^36 bytes; otherwise its output is the named ciphertext, 16 bytes
/// longer than the plaintext, which decryption under the same key and nonce
/// turns back into the plaintext.
#[verifier::external_body]
pub(crate) fn gcm_encrypt(key: &[u8; 32], nonce: &[u8; 12], plaintext: &[u8]) -> (r: Result<Vec<u8>, aes_gcm::Error>)
    ensures
        r is Ok <==> plaintext@.len() <= MAX_PLAINTEXT,
        r matches Ok(ct) ==> ct@ == gcm_seal(key@, nonce@, plaintext@),
        r matches Ok(ct) ==> ct@.len() == plaintext@.len() + 16,
        r matches Ok(ct) ==> gcm_open(key@, nonce@, ct@) == Some(plaintext@),
{
    Aes256Gcm::new(Key::<Aes256Gcm>::from_slice(key)).encrypt(Nonce::from_slice(nonce), plaintext)
}

/// `Aead::decrypt` of `Aes256Gcm`: the named plaintext where the tag
/// authenticates, an error otherwise.
#[verifier::external_body]
pub(crate) fn gcm_decrypt(key: &[u8; 32], nonce: &[u8], ciphertext: &[u8]) -> (r: Result<Vec<u8>, aes_gcm::Error>)
    requires
        nonce@.len() == NONCE_LEN,
    ensures
        r matches Ok(pt) ==> gcm_open(key@, nonce@, ciphertext@) == Some(pt@),
        r is Err ==> gcm_open(key@, nonce@, ciphertext@) is None,
{
    Aes256Gcm::new(Key::<Aes256Gcm>::from_slice(key)).decrypt(Nonce::from_slice(nonce), ciphertext)
}

/// `AeadCore::generate_nonce` fed by the operating system's random source:
/// twelve fresh random bytes, of which nothing more is promised.
#[verifier::external_body]
fn fresh_nonce() -> (n: [u8; 12]) {
    Aes256Gcm::generate_nonce(&mut OsRng).into()
}

/// `String::from_utf8`: the text that the bytes encode, where they are
/// valid UTF-8, and nothing otherwise.
#[verifier::external_body]
pub(crate) fn utf8_text(bytes: Vec<u8>) -> (r: Option<String>)
    ensures
        r is Some <==> valid_utf8(bytes@),
        r matches Some(s) ==> s@ == decode_utf8(bytes@),
{
    String::from_utf8(bytes).ok()
}

/// The bytes that standard base64 (RFC 4648 alphabet, with padding) decodes
/// from `text`, where `text` is valid base64.
pub uninterp spec fn base64_decoded(text: Seq<char>) -> Option<Seq<u8>>;

/// The symbol of a six-bit value in the standard base64 alphabet
/// (RFC 4648): `A`-`Z`, `a`-`z`, `0`-`9`, `+`, `/`.
pub open spec fn base64_symbol(v: int) -> char {
    if v < 26 {
        (65 + v) as char
    } else if v < 52 {
        (97 + (v - 26)) as char
    } else if v < 62 {
        (48 + (v - 52)) as char
    } else if v == 62 {
        '+'
    } else {
        '/'
    }
}

/// The standard base64 text (RFC 4648, padded with `=`) of `bytes`: each
/// group of three bytes gives four symbols of six bits each; a last group
/// of one or two bytes is filled with zero bits and padded to four.
pub open spec fn base64_encoded(bytes: Seq<u8>) -> Seq<char>
    decreases bytes.len(),
{
    if bytes.len() == 0 {
        Seq::empty()
    } else if bytes.len() == 1 {
        let x = bytes[0] as int;
        seq![base64_symbol(x / 4), base64_symbol((x % 4) * 16), '=', '=']
    } else if bytes.len() == 2 {
        let x = bytes[0] as int;
        let y = bytes[1] as int;
        seq![base64_symbol(x / 4), base64_symbol((x % 4) * 16 + y / 16), base64_symbol((y % 16) * 4), '=']
    } else {
        let x = bytes[0] as int;
        let y = bytes[1] as int;
        let z = bytes[2] as int;
        seq![
            base64_symbol(x / 4),
            base64_symbol((x % 4) * 16 + y / 16),
            base64_symbol((y % 16) * 4 + z / 64),
            base64_symbol(z % 64),
        ] + base64_encoded(bytes.skip(3))
    }
}

/// A character of the standard base64 alphabet, or its padding `=`.
pub open spec fn is_base64_symbol(c: char) -> bool {
    ('A' <= c && c <= 'Z') || ('a' <= c && c <= 'z') || ('0' <= c && c <= '9') || c == '+'
        || c == '/' || c == '='
}

/// `Engine::decode` of `base64::engine::general_purpose::STANDARD`: the named
/// bytes where the text is valid base64, nothing otherwise.
#[verifier::external_body]
fn b64_decode(text: &str) -> (r: Option<Vec<u8>>)
    ensures
        r matches Some(v) ==> base64_decoded(text@) == Some(v@),
        r is None ==> base64_decoded(text@) is None,
{
    base64::engine::general_purpose::STANDARD.decode(text).ok()
}

proof fn lemma_base64_symbol(v: int)
    requires
        0 <= v < 64,
    ensures
        is_base64_symbol(base64_symbol(v)),
{
}

/// Base64 text is made of alphabet symbols and `=` only.
proof fn lemma_base64_symbols(bytes: Seq<u8>)
    ensures
        forall|i: int| 0 <= i < base64_encoded(bytes).len() ==> is_base64_symbol(#[trigger] base64_encoded(bytes)[i]),
    decreases bytes.len(),
{
    if bytes.len() > 0 {
        let x = bytes[0] as int;
        lemma_base64_symbol(x / 4);
        if bytes.len() == 1 {
            lemma_base64_symbol((x % 4) * 16);
        } else {
            let y = bytes[1] as int;
            lemma_base64_symbol((x % 4) * 16 + y / 16);
            if bytes.len() == 2 {
                lemma_base64_symbol((y % 16) * 4);
            } else {
                let z = bytes[2] as int;
                lemma_base64_symbol((y % 16) * 4 + z / 64);
                lemma_base64_symbol(z % 64);
                lemma_base64_symbols(bytes.skip(3));
                let head = seq![
                    base64_symbol(x / 4),
                    base64_symbol((x % 4) * 16 + y / 16),
                    base64_symbol((y % 16) * 4 + z / 64),
                    base64_symbol(z % 64),
                ];
                assert forall|i: int| 0 <= i < base64_encoded(bytes).len() implies is_base64_symbol(#[trigger] base64_encoded(bytes)[i]) by {
                    if i >= 4 {
                        assert(base64_encoded(bytes)[i] == base64_encoded(bytes.skip(3))[i - 4]);
                    } else {
                        assert(base64_encoded(bytes)[i] == head[i]);
                    }
                }
            }
        }
    }
}

/// `Engine::encode` of `base64::engine::general_purpose::STANDARD`: the
/// padded standard base64 text of the bytes, which decodes back to them.
#[verifier::external_body]
fn b64_encode(bytes: &[u8]) -> (r: String)
    ensures
        r@ == base64_encoded(bytes@),
        base64_decoded(r@) == Some(bytes@),
{
    base64::engine::general_purpose::STANDARD.encode(bytes)
}

/// The master key that a credential-store text holds: the base64 decoding
/// of the trimmed text, where that is exactly 32 bytes.
pub open spec fn stored_key(text: Seq<char>) -> Option<Seq<u8>> {
    match base64_decoded(trim(text)) {
        Some(b) => if b.len() == 32 { Some(b) } else { None },
        None => None,
    }
}

/// Why sealing or opening a value failed.
#[derive(Debug, Clone, Copy, PartialEq, Eq, Structural)]
pub enum CryptoError {
    /// The cipher refused the plaintext (longer than it accepts).
    EncryptFailed,
    /// The blob is no longer than a nonce.
    BlobTooShort,
    /// The tag did not authenticate (wrong key or altered blob).
    DecryptFailed,
    /// The opened bytes are not UTF-8 text.
    NotUtf8,
}

impl CryptoError {
    /// The message shown for this error.
    pub fn message(&self) -> (r: String)
        ensures
            r@ == crypto_error_text(*self),
    {
        match self {
            CryptoError::EncryptFailed => crate::config_loader::types::lit("加密失败: aead::Error"),
            CryptoError::BlobTooShort => crate::config_loader::types::lit("密文长度异常"),
            CryptoError::DecryptFailed => crate::config_loader::types::lit("解密失败: aead::Error"),
            CryptoError::NotUtf8 => crate::config_loader::types::lit("解密结果不是合法 UTF-8"),
        }
    }
}

/// The message of each error.
pub open spec fn crypto_error_text(e: CryptoError) -> Seq<char> {
    match e {
        CryptoError::EncryptFailed => "加密失败: aead::Error"@,
        CryptoError::BlobTooShort => "密文长度异常"@,
        CryptoError::DecryptFailed => "解密失败: aead::Error"@,
        CryptoError::NotUtf8 => "解密结果不是合法 UTF-8"@,
    }
}

/// `blob` is `text` sealed under `key`: a nonce followed by the ciphertext of
/// the text's UTF-8 bytes under that nonce.
pub open spec fn is_sealed(key: Seq<u8>, text: Seq<char>, blob: Seq<u8>) -> bool {
    &&& blob.len() == NONCE_LEN + encode_utf8(text).len() + 16
    &&& blob.skip(NONCE_LEN as int) == gcm_seal(key, blob.take(NONCE_LEN as int), encode_utf8(text))
}

/// What opening `blob` under `key` gives.
pub open spec fn opened(key: Seq<u8>, blob: Seq<u8>) -> Result<Seq<char>, CryptoError> {
    if blob.len() <= NONCE_LEN {
        Err(CryptoError::BlobTooShort)
    } else {
        match gcm_open(key, blob.take(NONCE_LEN as int), blob.skip(NONCE_LEN as int)) {
            None => Err(CryptoError::DecryptFailed),
            Some(bytes) => if valid_utf8(bytes) {
                Ok(decode_utf8(bytes))
            } else {
                Err(CryptoError::NotUtf8)
            },
        }
    }
}

/// AES-256-GCM sealing under one master key.
pub struct Crypto {
    key: [u8; 32],
}

impl Crypto {
    /// The master key.
    pub closed spec fn key_bytes(&self) -> Seq<u8> {
        self.key@
    }

    /// A sealer for the given 32-byte key.
    pub fn from_key(key: &[u8; 32]) -> (c: Self)
        ensures
            c.key_bytes() == key@,
    {
        Crypto { key: *key }
    }

    /// Reads the master key back from its credential-store text; `None` when
    /// the text is not the base64 form of 32 bytes.
    pub fn key_from_stored_text(text: &str) -> (r: Option<[u8; 32]>)
        ensures
            r matches Some(k) ==> stored_key(text@) == Some(k@),
            r is None ==> stored_key(text@) is None,
    {
        let t = trim_str(text);
        match b64_decode(t.as_str()) {
            None => None,
            Some(raw) => {
                if raw.len() != 32 {
                    return None;
                }
                let mut key = [0u8; 32];
                let mut i: usize = 0;
                while i < 32
                    invariant
                        raw@.len() == 32,
                        i <= 32,
                        forall|j: int| 0 <= j < i ==> key@[j] == raw@[j],
                    decreases 32 - i,
                {
                    key[i] = raw[i];
                    i = i + 1;
                }
                assert(key@ =~= raw@);
                Some(key)
            },
        }
    }

    /// The credential-store text of a master key (its base64 form), which
    /// `key_from_stored_text` reads back as the same key.
    pub fn stored_text_of_key(key: &[u8; 32]) -> (r: String)
        ensures
            r@ == base64_encoded(key@),
            stored_key(r@) == Some(key@),
    {
        let r = b64_encode(key);
        proof {
            lemma_base64_symbols(key@);
            assert forall|i: int| 0 <= i < r@.len() implies !is_ws(#[trigger] r@[i]) by {
                assert(is_base64_symbol(r@[i]));
            }
            lemma_trim_no_ws(r@);
        }
        r
    }

    /// Seals `plaintext` under a fresh random nonce; the blob is the nonce
    /// followed by the ciphertext, and opening it gives back `plaintext`.
    pub fn encrypt(&self, plaintext: &str) -> (r: Result<Vec<u8>, CryptoError>)
        ensures
            r is Ok <==> encode_utf8(plaintext@).len() <= MAX_PLAINTEXT,
            r matches Err(e) ==> e == CryptoError::EncryptFailed,
            r matches Ok(blob) ==> is_sealed(self.key_bytes(), plaintext@, blob@),
            r matches Ok(blob) ==> opened(self.key_bytes(), blob@) == Ok::<Seq<char>, CryptoError>(plaintext@),
    {
        let nonce = fresh_nonce();
        let bytes = plaintext.as_bytes();
        match gcm_encrypt(&self.key, &nonce, bytes) {
            Err(_) => Err(CryptoError::EncryptFailed),
            Ok(ct) => {
                let mut out: Vec<u8> = Vec::new();
                out.extend_from_slice(&nonce);
                out.extend_from_slice(ct.as_slice());
                proof {
                    let key = self.key@;
                    assert(out@.take(NONCE_LEN as int) =~= nonce@);
                    assert(out@.skip(NONCE_LEN as int) =~= ct@);
                    encode_utf8_valid_utf8(plaintext@);
                    encode_utf8_decode_utf8(plaintext@);
                }
                Ok(out)
            },
        }
    }

    /// Opens a `nonce ‖ ciphertext` blob back into text.
    pub fn decrypt(&self, blob: &[u8]) -> (r: Result<String, CryptoError>)
        ensures
            r matches Ok(s) ==> opened(self.key_bytes(), blob@) == Ok::<Seq<char>, CryptoError>(s@),
            r matches Err(e) ==> opened(self.key_bytes(), blob@) == Err::<Seq<char>, CryptoError>(e),
    {
        if blob.len() <= NONCE_LEN {
            return Err(CryptoError::BlobTooShort);
        }
        let nonce = slice_part(blob, 0, NONCE_LEN);
        let ct = slice_part(blob, NONCE_LEN, blob.len());
        assert(nonce@ =~= blob@.take(NONCE_LEN as int));
        assert(ct@ =~= blob@.skip(NONCE_LEN as int));
        match gcm_decrypt(&self.key, nonce.as_slice(), ct.as_slice()) {
            Err(_) => Err(CryptoError::DecryptFailed),
            Ok(pt) => match utf8_text(pt) {
                Some(s) => Ok(s),
                None => Err(CryptoError::NotUtf8),
            },
        }
    }
}

/// The bytes `s[lo..hi]`.
pub(crate) fn slice_part(s: &[u8], lo: usize, hi: usize) -> (r: Vec<u8>)
    requires
        lo <= hi <= s@.len(),
    ensures
        r@ == s@.subrange(lo as int, hi as int),
{
    let mut r: Vec<u8> = Vec::new();
    let mut i = lo;
    while i < hi
        invariant
            lo <= i <= hi <= s@.len(),
            r@ == s@.subrange(lo as int, i as int),
        decreases hi - i,
    {
        r.push(s[i]);
        i = i + 1;
        assert(r@ =~= s@.subrange(lo as int, i as int));
    }
    r
}

} // verus!
