use agentctl::hub::cache::{cache_get_with, expired, needs_refresh, CacheOutcome, Timestamp};
use chrono::{Duration, Utc};

fn at(t: chrono::DateTime<Utc>) -> Timestamp {
    Timestamp { secs: t.timestamp(), nanos: t.timestamp_subsec_nanos() }
}

#[test]
fn fresh_cache_does_not_need_refresh() {
    let now = Utc::now();
    let ts = now.to_rfc3339();
    assert_eq!(needs_refresh(Some(&ts), &at(now), 6), Some(false));
}

#[test]
fn missing_fetched_at_needs_refresh() {
    assert_eq!(needs_refresh(None, &at(Utc::now()), 6), Some(true));
}

#[test]
fn expired_cache_needs_refresh() {
    let now = Utc::now();
    let old = (now - Duration::hours(7)).to_rfc3339();
    assert_eq!(needs_refresh(Some(&old), &at(now), 6), Some(true));
}

#[test]
fn corrupt_fetched_at_needs_refresh() {
    assert_eq!(needs_refresh(Some("not-a-date"), &at(Utc::now()), 6), Some(true));
}

#[test]
fn surrounding_whitespace_is_ignored() {
    let now = Utc::now();
    let ts = format!("  {}\n", now.to_rfc3339());
    assert_eq!(needs_refresh(Some(&ts), &at(now), 6), Some(false));
}

#[test]
fn exactly_ttl_old_is_still_fresh() {
    let fetched = chrono::DateTime::parse_from_rfc3339("2026-01-01T00:00:00Z").unwrap().with_timezone(&Utc);
    let now = fetched + Duration::hours(6);
    assert_eq!(needs_refresh(Some("2026-01-01T00:00:00Z"), &at(now), 6), Some(false));
    let later = now + Duration::nanoseconds(1);
    assert_eq!(needs_refresh(Some("2026-01-01T00:00:00Z"), &at(later), 6), Some(true));
}

#[test]
fn zero_ttl_refreshes_anything_older() {
    let fetched = chrono::DateTime::parse_from_rfc3339("2026-01-01T00:00:00+02:00").unwrap().with_timezone(&Utc);
    let later = fetched + Duration::seconds(1);
    assert_eq!(needs_refresh(Some("2026-01-01T00:00:00+02:00"), &at(later), 0), Some(true));
    assert_eq!(needs_refresh(Some("2026-01-01T00:00:00+02:00"), &at(fetched), 0), Some(false));
}

#[test]
fn longer_ttl_keeps_cache_longer() {
    let now = Utc::now();
    let old = (now - Duration::hours(7)).to_rfc3339();
    assert_eq!(needs_refresh(Some(&old), &at(now), 6), Some(true));
    assert_eq!(needs_refresh(Some(&old), &at(now), 8), Some(false));
}

fn ok_fetcher(url: &str) -> Result<String, String> {
    Ok(format!("body of {url}"))
}

fn err_fetcher(_url: &str) -> Result<String, String> {
    Err("offline".to_string())
}

#[test]
fn fresh_cache_is_used_without_fetching() {
    let now = Utc::now();
    let ts = now.to_rfc3339();
    let r = cache_get_with(Some(&ts), true, &at(now), 6, "https://x/index.json", err_fetcher);
    assert!(matches!(r, Ok(CacheOutcome::Fresh)));
}

#[test]
fn stale_cache_is_fetched_again() {
    let r = cache_get_with(None, true, &at(Utc::now()), 6, "https://x/index.json", ok_fetcher);
    match r {
        Ok(CacheOutcome::Fetched(body)) => assert_eq!(body, "body of https://x/index.json"),
        _ => panic!("expected a fetch"),
    }
}

#[test]
fn failed_fetch_falls_back_on_cache() {
    let r = cache_get_with(Some("not-a-date"), true, &at(Utc::now()), 6, "u", err_fetcher);
    match r {
        Ok(CacheOutcome::Stale(m)) => assert_eq!(m, "offline"),
        _ => panic!("expected the stale cache"),
    }
    let r = cache_get_with(Some("not-a-date"), false, &at(Utc::now()), 6, "u", err_fetcher);
    assert_eq!(r.unwrap_err(), "offline");
}

#[test]
fn expired_compares_elapsed_time_with_ttl() {
    let fetched = (1_000_000i64, 500u32);
    assert!(!expired(fetched, &Timestamp { secs: 1_000_000 + 3600, nanos: 500 }, 1));
    assert!(expired(fetched, &Timestamp { secs: 1_000_000 + 3600, nanos: 501 }, 1));
    assert!(!expired(fetched, &Timestamp { secs: 999_000, nanos: 0 }, 0));
}

#[test]
fn stale_stays_stale_later() {
    let now = Utc::now();
    let old = (now - Duration::hours(7)).to_rfc3339();
    assert_eq!(needs_refresh(Some(&old), &at(now), 6), Some(true));
    assert_eq!(needs_refresh(Some(&old), &at(now + Duration::hours(30)), 6), Some(true));
}

#[test]
fn ttl_cast_to_i64_wraps_like_chrono_sees_it() {
    // u64::MAX is -1 hour once cast: stale unless fetched more than an hour ahead
    let now = Utc::now();
    let ts = now.to_rfc3339();
    assert_eq!(needs_refresh(Some(&ts), &at(now), u64::MAX), Some(true));
    let ahead = (now + Duration::hours(2)).to_rfc3339();
    assert_eq!(needs_refresh(Some(&ahead), &at(now), u64::MAX), Some(false));
}

#[test]
fn ttl_past_chrono_bound_is_refused_once_the_time_parses() {
    let now = Utc::now();
    let ts = now.to_rfc3339();
    let huge = 3_000_000_000_000u64;
    assert_eq!(needs_refresh(Some(&ts), &at(now), huge), None);
    // without a usable fetch time the TTL is never compared
    assert_eq!(needs_refresh(None, &at(now), huge), Some(true));
    assert_eq!(needs_refresh(Some("not-a-date"), &at(now), huge), Some(true));
    assert!(matches!(
        cache_get_with(Some(&ts), true, &at(now), huge, "u", ok_fetcher),
        Ok(CacheOutcome::TtlOutOfRange)
    ));
    assert!(matches!(cache_get_with(None, true, &at(now), huge, "u", ok_fetcher), Ok(CacheOutcome::Fetched(_))));
    // the bound itself is still usable
    assert_eq!(needs_refresh(Some(&ts), &at(now), 2_562_047_788_015), Some(false));
}
