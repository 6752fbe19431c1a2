//! Byte-level sealing used by the shared core: AES-256-GCM under a master
//! key kept as hexadecimal text in the system credential store; a sealed
//! value is `nonce (12) ‖ ciphertext ‖ tag (16)`.
use vstd::prelude::*;
use vstd::utf8::*;
use rand::RngCore;
use crate::crypto::{gcm_encrypt, gcm_decrypt, utf8_text, slice_part, gcm_seal, gcm_open, MAX_PLAINTEXT};
use crate::balance::{hex_bytes, hex_decode, hex_encode, hex_text};
use crate::config_loader::types::lit;
use crate::text::{dec, fmt_u64};

verus! {

/// Shortest sealed value: a nonce and a tag.
pub const MIN_SEALED_LEN: usize = 28;

/// `RngCore::fill_bytes` of `rand::thread_rng()` on twelve bytes: random
/// bytes, of which nothing is promised.
#[verifier::external_body]
fn thread_rng_nonce() -> (n: [u8; 12]) {
    let mut nonce = [0u8; 12];
    rand::thread_rng().fill_bytes(&mut nonce);
    nonce
}

/// The error of a master key text that is not hexadecimal or not 32 bytes.
pub open spec fn key_text_error(text: Seq<char>) -> Option<Seq<char>> {
    match hex_bytes(text) {
        None => Some("Failed to decode master key from keyring"@),
        Some(b) => if b.len() != 32 {
            Some("Invalid master key length in keyring: expected 32 bytes, got "@ + dec(b.len()))
        } else {
            None
        },
    }
}

/// The sealer of the shared core.
pub struct Crypto {
    key: [u8; 32],
}

impl Crypto {
    /// The master key.
    pub closed spec fn key_bytes(&self) -> Seq<u8> {
        self.key@
    }

    /// A sealer for a master key read back from its hexadecimal text.
    pub fn from_key_text(text: &str) -> (r: Result<Self, String>)
        ensures
            r matches Ok(c) ==> key_text_error(text@) is None && hex_bytes(text@) == Some(c.key_bytes()),
            r matches Err(m) ==> key_text_error(text@) == Some(m@),
    {
        let raw = match hex_decode(text) {
            Some(v) => v,
            None => return Err(lit("Failed to decode master key from keyring")),
        };
        if raw.len() != 32 {
            let mut m = lit("Invalid master key length in keyring: expected 32 bytes, got ");
            let n = fmt_u64(raw.len() as u64);
            m.append(n.as_str());
            return Err(m);
        }
        let mut key = [0u8; 32];
        let mut i: usize = 0;
        while i < 32
            invariant
                raw@.len() == 32,
                i <= 32,
                forall|j: int| 0 <= j < i ==> key@[j] == raw@[j],
            decreases 32 - i,
        {
            key[i] = raw[i];
            i = i + 1;
        }
        assert(key@ =~= raw@);
        Ok(Crypto { key })
    }

    /// The hexadecimal text under which a fresh master key is stored.
    pub fn key_text(key: &[u8; 32]) -> (r: String)
        ensures
            r@ == hex_text(key@),
    {
        hex_encode(key)
    }

    /// Seals bytes under a fresh random nonce: `nonce ‖ ciphertext ‖ tag`.
    pub fn encrypt(&self, plaintext: &[u8]) -> (r: Result<Vec<u8>, String>)
        ensures
            r is Ok <==> plaintext@.len() <= MAX_PLAINTEXT,
            r matches Err(m) ==> m@ == "Encryption failed: aead::Error"@,
            r matches Ok(blob) ==> blob@.len() == 12 + plaintext@.len() + 16 && blob@.skip(12) == gcm_seal(
                self.key_bytes(),
                blob@.take(12),
                plaintext@,
            ),
            r matches Ok(blob) ==> self.opened(blob@) == Ok::<Seq<u8>, Seq<char>>(plaintext@),
    {
        let nonce = thread_rng_nonce();
        match gcm_encrypt(&self.key, &nonce, plaintext) {
            Err(_) => Err(lit("Encryption failed: aead::Error")),
            Ok(ct) => {
                let mut out: Vec<u8> = Vec::new();
                out.extend_from_slice(&nonce);
                out.extend_from_slice(ct.as_slice());
                assert(out@.take(12) =~= nonce@);
                assert(out@.skip(12) =~= ct@);
                Ok(out)
            },
        }
    }

    /// What opening a sealed value gives: its plaintext, or the error.
    pub open spec fn opened(&self, data: Seq<u8>) -> Result<Seq<u8>, Seq<char>> {
        if data.len() < MIN_SEALED_LEN {
            Err("Ciphertext too short: expected at least 28 bytes, got "@ + dec(data.len()))
        } else {
            match gcm_open(self.key_bytes(), data.take(12), data.skip(12)) {
                Some(p) => Ok(p),
                None => Err("Decryption failed: aead::Error"@),
            }
        }
    }

    /// Opens a sealed value.
    pub fn decrypt(&self, data: &[u8]) -> (r: Result<Vec<u8>, String>)
        ensures
            r matches Ok(p) ==> self.opened(data@) == Ok::<Seq<u8>, Seq<char>>(p@),
            r matches Err(m) ==> self.opened(data@) == Err::<Seq<u8>, Seq<char>>(m@),
    {
        if data.len() < MIN_SEALED_LEN {
            let mut m = lit("Ciphertext too short: expected at least 28 bytes, got ");
            let n = fmt_u64(data.len() as u64);
            m.append(n.as_str());
            return Err(m);
        }
        let nonce = slice_part(data, 0, 12);
        let ct = slice_part(data, 12, data.len());
        assert(nonce@ =~= data@.take(12));
        assert(ct@ =~= data@.skip(12));
        match gcm_decrypt(&self.key, nonce.as_slice(), ct.as_slice()) {
            Ok(p) => Ok(p),
            Err(_) => Err(lit("Decryption failed: aead::Error")),
        }
    }

    /// Seals a text (its UTF-8 bytes).
    pub fn encrypt_string(&self, plaintext: &str) -> (r: Result<Vec<u8>, String>)
        ensures
            r is Ok <==> encode_utf8(plaintext@).len() <= MAX_PLAINTEXT,
            r matches Ok(blob) ==> self.opened(blob@) == Ok::<Seq<u8>, Seq<char>>(encode_utf8(plaintext@)),
            r matches Err(m) ==> m@ == "Encryption failed: aead::Error"@,
    {
        self.encrypt(plaintext.as_bytes())
    }

    /// Opens a sealed value into text.
    pub fn decrypt_string(&self, data: &[u8]) -> (r: Result<String, String>)
        ensures
            r matches Ok(s) ==> self.opened(data@) matches Ok(p) && valid_utf8(p) && s@ == decode_utf8(p),
            r matches Err(m) ==> (self.opened(data@) == Err::<Seq<u8>, Seq<char>>(m@)) || (self.opened(
                data@,
            ) matches Ok(p) && !valid_utf8(p) && m@ == "Decrypted data is not valid UTF-8"@),
    {
        let p = self.decrypt(data)?;
        match utf8_text(p) {
            Some(s) => Ok(s),
            None => Err(lit("Decrypted data is not valid UTF-8")),
        }
    }
}

/// Opening what `encrypt_string` sealed gives back the text.
pub proof fn law_string_round_trip(c: Crypto, text: Seq<char>, blob: Seq<u8>)
    requires
        c.opened(blob) == Ok::<Seq<u8>, Seq<char>>(encode_utf8(text)),
    ensures
        c.opened(blob) matches Ok(p) && valid_utf8(p) && decode_utf8(p) == text,
{
    encode_utf8_valid_utf8(text);
    encode_utf8_decode_utf8(text);
}

} // verus!
