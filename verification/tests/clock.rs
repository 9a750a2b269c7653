use weather_core::clock::{
    cached_snapshot_is_fresh, check_timezone, date_for_tz, local_date_and_next_change,
};

// 2026-06-23T22:00:00Z
const EVENING_UTC_MS: i64 = 1_782_252_000_000;

#[test]
fn date_for_shanghai_crosses_day_at_16_utc() {
    let ts = chrono::DateTime::<chrono::Utc>::from_timestamp(1_782_252_000, 0)
        .unwrap()
        .timestamp_millis();
    assert_eq!(date_for_tz(ts, "Asia/Shanghai").unwrap(), "2026-06-24");
    assert_eq!(date_for_tz(ts, "UTC").unwrap(), "2026-06-23");
}

#[test]
fn rejects_invalid_timezone() {
    assert!(date_for_tz(0, "Not/A/Zone").is_err());
}

#[test]
fn unknown_zones_and_undated_instants_are_named() {
    assert_eq!(
        date_for_tz(0, "Not/A/Zone").unwrap_err(),
        "invalid timezone `Not/A/Zone`"
    );
    assert_eq!(
        check_timezone("Not/A/Zone").unwrap_err(),
        "invalid timezone `Not/A/Zone`"
    );
    assert!(check_timezone("Asia/Shanghai").is_ok());
    assert_eq!(
        date_for_tz(i64::MAX, "UTC").unwrap_err(),
        "invalid fetched_at_unix_ms"
    );
    assert_eq!(
        local_date_and_next_change(8_210_266_876_799_999, "UTC").unwrap_err(),
        "invalid fetched_at_unix_ms"
    );
}

#[test]
fn locates_next_local_date_boundary() {
    let ts = chrono::DateTime::parse_from_rfc3339("2026-06-23T15:59:30Z")
        .unwrap()
        .timestamp_millis();
    let (date, wait) = local_date_and_next_change(ts, "Asia/Shanghai").unwrap();

    assert_eq!(date, "2026-06-23");
    assert_eq!(wait, 30_000);
}

#[test]
fn short_days_end_early() {
    // Clocks in Berlin go forward by an hour on 2026-03-29.
    let ts = chrono::DateTime::parse_from_rfc3339("2026-03-29T00:00:00+01:00")
        .unwrap()
        .timestamp_millis();
    let (date, wait) = local_date_and_next_change(ts, "Europe/Berlin").unwrap();
    assert_eq!(date, "2026-03-29");
    assert_eq!(wait, 23 * 60 * 60 * 1000);
}

#[test]
fn cached_snapshot_requires_age_strictly_below_ttl() {
    let fetched = 1_000_000;

    assert!(cached_snapshot_is_fresh(fetched, fetched + 59_999, 60, "UTC").unwrap());
    assert!(!cached_snapshot_is_fresh(fetched, fetched + 60_000, 60, "UTC").unwrap());
    assert!(!cached_snapshot_is_fresh(fetched, fetched, 0, "UTC").unwrap());
}

#[test]
fn cached_snapshot_must_be_from_same_local_date() {
    let fetched = chrono::DateTime::parse_from_rfc3339("2026-06-23T23:59:50+08:00")
        .unwrap()
        .timestamp_millis();
    let now = chrono::DateTime::parse_from_rfc3339("2026-06-24T00:00:10+08:00")
        .unwrap()
        .timestamp_millis();

    assert!(!cached_snapshot_is_fresh(fetched, now, 60, "Asia/Shanghai").unwrap());
    assert!(cached_snapshot_is_fresh(now - 1_000, now, 60, "Asia/Shanghai").unwrap());
}

#[test]
fn freshness_asks_for_the_zone_only_of_young_snapshots() {
    assert!(cached_snapshot_is_fresh(EVENING_UTC_MS, EVENING_UTC_MS, 60, "Nowhere").is_err());
    assert!(!cached_snapshot_is_fresh(0, EVENING_UTC_MS, 60, "Nowhere").unwrap());
}
