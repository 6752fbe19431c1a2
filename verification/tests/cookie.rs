use anyrouter::cookie::{classify, classify_at, CookieStatus, Timestamp};
use chrono::{DateTime, Duration, Local, SecondsFormat, TimeZone, Utc};

fn at(t: DateTime<Local>) -> Timestamp {
    Timestamp::new(t.timestamp(), t.timestamp_subsec_nanos())
}

fn noon() -> DateTime<Local> {
    Local.with_ymd_and_hms(2026, 6, 13, 12, 0, 0).unwrap()
}

#[test]
fn future_expires_roundtrips_to_valid() {
    // 2100-01-01 UTC, stored as the local RFC 3339 text of that instant
    let iso = Utc
        .timestamp_opt(4_102_444_800, 0)
        .single()
        .map(|dt| dt.with_timezone(&Local).to_rfc3339_opts(SecondsFormat::Secs, false))
        .expect("未来时间应可换算");
    assert_eq!(classify_at(Some(&iso), at(noon())), CookieStatus::Valid);
}

#[test]
fn none_or_garbage_is_unknown() {
    assert_eq!(classify(None), CookieStatus::Unknown);
    assert_eq!(classify(Some("not-a-date")), CookieStatus::Unknown);
}

#[test]
fn past_soon_far_classification() {
    let now = noon();
    let past = (now - Duration::hours(1)).to_rfc3339();
    let soon = (now + Duration::hours(5)).to_rfc3339();
    let far = (now + Duration::days(30)).to_rfc3339();
    assert_eq!(classify_at(Some(&past), at(now)), CookieStatus::Expired);
    assert_eq!(classify_at(Some(&soon), at(now)), CookieStatus::ExpiringSoon);
    assert_eq!(classify_at(Some(&far), at(now)), CookieStatus::Valid);
}

#[test]
fn boundary_exactly_24h_is_expiring_soon() {
    let now = noon();
    let at_24h = (now + Duration::hours(24)).to_rfc3339();
    assert_eq!(classify_at(Some(&at_24h), at(now)), CookieStatus::ExpiringSoon);
}

#[test]
fn exact_expiry_instant_counts_as_expired() {
    let now = Timestamp::new(1_781_352_000, 0);
    // 2026-06-13T12:00:00Z is 1_781_352_000
    assert_eq!(classify_at(Some("2026-06-13T12:00:00Z"), now), CookieStatus::Expired);
    assert_eq!(classify_at(Some("2026-06-13T12:00:00.5Z"), now), CookieStatus::ExpiringSoon);
    assert_eq!(classify_at(Some("2026-06-14T12:00:00Z"), now), CookieStatus::ExpiringSoon);
    assert_eq!(classify_at(Some("2026-06-14T12:00:00.000000001Z"), now), CookieStatus::Valid);
    assert_eq!(classify_at(Some("2026-06-14T20:00:00+08:00"), now), CookieStatus::ExpiringSoon);
    assert_eq!(classify_at(None, now), CookieStatus::Unknown);
}

#[test]
fn status_only_moves_towards_expired_as_time_passes() {
    let expiry = "2026-06-14T00:00:00Z";
    let mut last = 0;
    for hours in 0..48 {
        let now = Timestamp::new(1_781_352_000 - 86_400 + hours * 3600, 0);
        let rank = match classify_at(Some(expiry), now) {
            CookieStatus::Valid => 0,
            CookieStatus::ExpiringSoon => 1,
            CookieStatus::Expired => 2,
            CookieStatus::Unknown => 3,
        };
        assert!(rank >= last && rank < 3);
        last = rank;
    }
    assert_eq!(last, 2);
}
