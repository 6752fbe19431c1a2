//! Cookie lifetime classification.  An account stores the expiry of its
//! session cookie as an RFC 3339 text (or nothing, for a session-only or
//! unknown expiry); its status follows from comparing that instant with the
//! current one.
use vstd::prelude::*;

verus! {

/// Overall state of an account's cookie, used to colour the interface.
#[derive(Debug, Clone, Copy, PartialEq, Eq, Structural)]
pub enum CookieStatus {
    /// Still valid for more than a day.
    Valid,
    /// Expires within the next 24 hours.
    ExpiringSoon,
    /// Already expired.
    Expired,
    /// No known expiry (session cookie, missing or unreadable text).
    Unknown,
}

/// An instant: whole seconds since the Unix epoch and the nanoseconds within
/// that second (as `DateTime::timestamp` and `timestamp_subsec_nanos` give them).
#[derive(Debug, Clone, Copy, PartialEq, Eq, Structural)]
pub struct Timestamp {
    pub secs: i64,
    pub nanos: u32,
}

/// Seconds in the 24 hours within which a cookie counts as expiring soon.
pub const DAY_SECS: i64 = 86400;

/// `a` is the same instant as `b` or an earlier one.
pub open spec fn at_or_before(a: Timestamp, b: Timestamp) -> bool {
    a.secs < b.secs || (a.secs == b.secs && a.nanos <= b.nanos)
}

/// `t` moved 24 hours later (over unbounded integers).
pub open spec fn day_after(t: Timestamp) -> (int, int) {
    (t.secs + DAY_SECS, t.nanos as int)
}

/// The instant that an RFC 3339 text denotes, as seconds since the epoch and
/// nanoseconds within the second; nothing where the text is not RFC 3339.
pub uninterp spec fn rfc3339_instant(text: Seq<char>) -> Option<(i64, u32)>;

/// `DateTime::parse_from_rfc3339`, reduced to the instant it denotes
/// (the named result; the RFC 3339 grammar is not restated here).
#[verifier::external_body]
fn parse_rfc3339(text: &str) -> (r: Option<(i64, u32)>)
    ensures
        r == rfc3339_instant(text@),
{
    match chrono::DateTime::parse_from_rfc3339(text) {
        Ok(dt) => Some((dt.timestamp(), dt.timestamp_subsec_nanos())),
        Err(_) => None,
    }
}

/// `chrono::Local::now()` as an instant; it depends on the clock, so nothing
/// is promised of its value.
#[verifier::external_body]
fn clock_now() -> (t: Timestamp) {
    let now = chrono::Local::now();
    Timestamp { secs: now.timestamp(), nanos: now.timestamp_subsec_nanos() }
}

/// The status of a cookie that expires at `exp` (if known), seen at `now`.
pub open spec fn status_at(exp: Option<(i64, u32)>, now: Timestamp) -> CookieStatus {
    match exp {
        None => CookieStatus::Unknown,
        Some(e) => {
            let t = Timestamp { secs: e.0, nanos: e.1 };
            if at_or_before(t, now) {
                CookieStatus::Expired
            } else if t.secs < day_after(now).0 || (t.secs == day_after(now).0 && t.nanos
                <= day_after(now).1) {
                CookieStatus::ExpiringSoon
            } else {
                CookieStatus::Valid
            }
        },
    }
}

/// The status of a stored expiry text at `now`.
pub open spec fn cookie_status(expires_at: Option<Seq<char>>, now: Timestamp) -> CookieStatus {
    match expires_at {
        None => CookieStatus::Unknown,
        Some(s) => status_at(rfc3339_instant(s), now),
    }
}

/// The characters of an optional text.
pub open spec fn text_of(o: Option<&str>) -> Option<Seq<char>> {
    match o {
        Some(s) => Some(s@),
        None => None,
    }
}

impl Timestamp {
    /// The instant `secs` seconds and `nanos` nanoseconds after the epoch.
    pub fn new(secs: i64, nanos: u32) -> (t: Self)
        ensures
            t.secs == secs,
            t.nanos == nanos,
    {
        Timestamp { secs, nanos }
    }
}

/// Classifies a stored expiry text against the given current instant:
/// `Unknown` without a text or when it is not RFC 3339, `Expired` when the
/// expiry is not after `now`, `ExpiringSoon` when it is at most 24 hours
/// after `now`, `Valid` otherwise.
pub fn classify_at(expires_at: Option<&str>, now: Timestamp) -> (r: CookieStatus)
    ensures
        r == cookie_status(text_of(expires_at), now),
{
    let s = match expires_at {
        None => return CookieStatus::Unknown,
        Some(s) => s,
    };
    match parse_rfc3339(s) {
        None => CookieStatus::Unknown,
        Some(e) => {
            let t = Timestamp { secs: e.0, nanos: e.1 };
            if t.secs < now.secs || (t.secs == now.secs && t.nanos <= now.nanos) {
                CookieStatus::Expired
            } else {
                let limit: i128 = now.secs as i128 + DAY_SECS as i128;
                let secs: i128 = t.secs as i128;
                if secs < limit || (secs == limit && t.nanos <= now.nanos) {
                    CookieStatus::ExpiringSoon
                } else {
                    CookieStatus::Valid
                }
            }
        },
    }
}

/// Classifies a stored expiry text against the clock's current instant.
pub fn classify(expires_at: Option<&str>) -> (r: CookieStatus)
    ensures
        exists|now: Timestamp| r == #[trigger] cookie_status(text_of(expires_at), now),
        expires_at is None ==> r == CookieStatus::Unknown,
        expires_at matches Some(s) && rfc3339_instant(s@) is None ==> r == CookieStatus::Unknown,
{
    let now = clock_now();
    classify_at(expires_at, now)
}

/// How far along towards expiry a status is (an unknown expiry ranks last).
pub open spec fn urgency(s: CookieStatus) -> int {
    match s {
        CookieStatus::Valid => 0,
        CookieStatus::ExpiringSoon => 1,
        CookieStatus::Expired => 2,
        CookieStatus::Unknown => 3,
    }
}

/// As time passes, a cookie's status only moves from valid towards expired,
/// and whether its expiry is known does not change.
pub proof fn law_status_moves_towards_expired(
    expires_at: Option<Seq<char>>,
    earlier: Timestamp,
    later: Timestamp,
)
    requires
        at_or_before(earlier, later),
    ensures
        (cookie_status(expires_at, earlier) == CookieStatus::Unknown) == (cookie_status(expires_at, later)
            == CookieStatus::Unknown),
        urgency(cookie_status(expires_at, earlier)) <= urgency(cookie_status(expires_at, later)),
{
}

} // verus!
