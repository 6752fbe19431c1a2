//! Balance change detection.  After each run the balances of all accounts
//! are serialised as JSON (keys in sorted order), and the first 16 hex
//! digits of the SHA-256 digest of that text serve as a fingerprint; a
//! notification is only due when the fingerprint differs from the last one
//! saved.
use vstd::prelude::*;
use vstd::utf8::*;
use sha2::{Digest, Sha256};
use crate::text::{trim, trim_str, chars_of, string_of};

verus! {

/// The SHA-256 digest of `bytes`.
pub uninterp spec fn sha256(bytes: Seq<u8>) -> Seq<u8>;

/// `Digest::digest` of `sha2::Sha256`: the named digest, 32 bytes long.
#[verifier::external_body]
fn sha256_digest(bytes: &[u8]) -> (r: Vec<u8>)
    ensures
        r@ == sha256(bytes@),
        r@.len() == 32,
{
    Sha256::digest(bytes).to_vec()
}

/// The lower-case hexadecimal digit for `n < 16`.
pub open spec fn hex_digit(n: nat) -> char {
    if n < 10 {
        ((48 + n) as u32) as char
    } else {
        ((87 + n) as u32) as char
    }
}

/// Two lower-case hex digits per byte, most significant first.
pub open spec fn hex_text(bytes: Seq<u8>) -> Seq<char>
    decreases bytes.len(),
{
    if bytes.len() == 0 {
        Seq::empty()
    } else {
        let b = bytes.last() as nat;
        hex_text(bytes.drop_last()) + seq![hex_digit(b / 16), hex_digit(b % 16)]
    }
}

/// The fingerprint of a balance text: the first 16 hex digits of the
/// SHA-256 digest of its UTF-8 bytes.
pub open spec fn fingerprint(json: Seq<char>) -> Seq<char> {
    hex_text(sha256(encode_utf8(json))).take(16)
}

proof fn lemma_hex_len(bytes: Seq<u8>)
    ensures
        hex_text(bytes).len() == 2 * bytes.len(),
    decreases bytes.len(),
{
    if bytes.len() > 0 {
        lemma_hex_len(bytes.drop_last());
    }
}

fn hex_char(d: u8) -> (c: char)
    requires
        d < 16,
    ensures
        c == hex_digit(d as nat),
{
    if d < 10 {
        let b: u8 = 48 + d;
        b as char
    } else {
        let b: u8 = 87 + d;
        b as char
    }
}

/// Lower-case hexadecimal text of the bytes (`[0xab, 0xcd]` gives `"abcd"`).
pub fn hex_encode(bytes: &[u8]) -> (r: String)
    ensures
        r@ == hex_text(bytes@),
{
    let mut r = String::new();
    let mut i: usize = 0;
    while i < bytes.len()
        invariant
            i <= bytes@.len(),
            r@ == hex_text(bytes@.take(i as int)),
        decreases bytes.len() - i,
    {
        let b = bytes[i];
        r.push(hex_char(b / 16));
        r.push(hex_char(b % 16));
        proof {
            let t = bytes@.take(i + 1);
            assert(t.drop_last() =~= bytes@.take(i as int));
            assert(t.last() == b);
        }
        i = i + 1;
    }
    assert(bytes@.take(bytes@.len() as int) =~= bytes@);
    r
}

/// The value of a hexadecimal digit (either case).
pub open spec fn hex_value(c: char) -> Option<nat> {
    if '0' <= c && c <= '9' {
        Some((c as nat - 48) as nat)
    } else if 'a' <= c && c <= 'f' {
        Some((c as nat - 87) as nat)
    } else if 'A' <= c && c <= 'F' {
        Some((c as nat - 55) as nat)
    } else {
        None
    }
}

/// The bytes a hexadecimal text denotes: two digits per byte, most
/// significant first; nothing for an odd length or a non-digit.
pub open spec fn hex_bytes(t: Seq<char>) -> Option<Seq<u8>> {
    if t.len() % 2 == 1 || exists|i: int| 0 <= i < t.len() && (#[trigger] hex_value(t[i])) is None {
        None
    } else {
        Some(Seq::new((t.len() / 2) as nat, |i: int| (hex_value(t[2 * i])->0 * 16 + hex_value(t[2 * i + 1])->0) as u8))
    }
}

fn hex_value_of(c: char) -> (r: Option<u8>)
    ensures
        match hex_value(c) {
            Some(v) => r == Some(v as u8) && v < 16,
            None => r is None,
        },
{
    if '0' <= c && c <= '9' {
        Some(((c as u32) - 48) as u8)
    } else if 'a' <= c && c <= 'f' {
        Some(((c as u32) - 87) as u8)
    } else if 'A' <= c && c <= 'F' {
        Some(((c as u32) - 55) as u8)
    } else {
        None
    }
}

/// Decodes a hexadecimal text (`hex::decode`): two digits of either case per
/// byte; `None` for an odd length or a character that is not a digit.
pub fn hex_decode(text: &str) -> (r: Option<Vec<u8>>)
    ensures
        match hex_bytes(text@) {
            Some(b) => r matches Some(v) && v@ == b,
            None => r is None,
        },
{
    let t = chars_of(text);
    if t.len() % 2 == 1 {
        return None;
    }
    let mut out: Vec<u8> = Vec::new();
    let mut i: usize = 0;
    while i < t.len() / 2
        invariant
            t@ == text@,
            t@.len() % 2 == 0,
            i <= t@.len() / 2,
            out@.len() == i,
            forall|k: int| 0 <= k < 2 * i ==> (#[trigger] hex_value(t@[k])) is Some,
            forall|k: int| 0 <= k < i ==> #[trigger] out@[k] == (hex_value(t@[2 * k])->0 * 16 + hex_value(t@[2 * k + 1])->0) as u8,
        decreases t.len() / 2 - i,
    {
        let hi = hex_value_of(t[2 * i]);
        let lo = hex_value_of(t[2 * i + 1]);
        match (hi, lo) {
            (Some(h), Some(l)) => {
                out.push(h * 16 + l);
                assert(forall|k: int| 0 <= k < 2 * i ==> (#[trigger] hex_value(t@[k])) is Some);
                assert(hex_value(t@[2 * i as int]) is Some);
                assert(hex_value(t@[2 * i + 1]) is Some);
            },
            _ => {
                assert(hex_value(t@[2 * i as int]) is None || hex_value(t@[2 * i + 1]) is None);
                return None;
            },
        }
        i = i + 1;
    }
    assert(out@ =~= Seq::new((t@.len() / 2) as nat, |k: int| (hex_value(t@[2 * k])->0 * 16 + hex_value(t@[2 * k + 1])->0) as u8));
    Some(out)
}

/// The fingerprint of the serialised balances: the first 16 hex digits of
/// the SHA-256 digest of the text.
pub fn balance_fingerprint(json: &str) -> (r: String)
    ensures
        r@ == fingerprint(json@),
        r@.len() == 16,
{
    let digest = sha256_digest(json.as_bytes());
    let hex = hex_encode(digest.as_slice());
    proof {
        lemma_hex_len(digest@);
    }
    let v = chars_of(hex.as_str());
    string_of(&v, 0, 16)
}

/// The fingerprint saved by the previous run, read from the saved file's
/// text: the trimmed text, or nothing when it is blank.
pub fn saved_fingerprint(content: &str) -> (r: Option<String>)
    ensures
        r matches Some(h) ==> trim(content@).len() > 0 && h@ == trim(content@),
        r is None ==> trim(content@).len() == 0,
{
    let t = trim_str(content);
    if t.as_str().is_empty() {
        None
    } else {
        Some(t)
    }
}

/// Whether the balances changed since the previous run: always when no
/// fingerprint was saved, otherwise when the two differ.
pub fn balances_changed(previous: &Option<String>, current: &str) -> (r: bool)
    ensures
        r == match previous {
            Some(p) => p@ != current@,
            None => true,
        },
{
    match previous {
        Some(p) => !crate::text::str_eq(p.as_str(), current),
        None => true,
    }
}

} // verus!
