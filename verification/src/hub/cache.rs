//! When a cached hub index is too old and must be fetched again.

use vstd::prelude::*;

use crate::text::{trim, trimmed};

verus! {

/// An instant: seconds since the Unix epoch and the nanoseconds within that second.
#[derive(Debug)]
pub struct Timestamp {
    pub secs: i64,
    pub nanos: u32,
}

/// Names the result of parsing a text as an RFC 3339 date and time with
/// `str::parse::<chrono::DateTime<chrono::Utc>>`: the instant it denotes as
/// (Unix seconds, nanoseconds within the second), or nothing if it is no such date.
pub uninterp spec fn rfc3339_instant(text: Seq<char>) -> Option<(i64, u32)>;

/// Parses `text` with `chrono`'s `FromStr` for `DateTime<Utc>` and returns
/// `timestamp()` and `timestamp_subsec_nanos()` of the result.
#[verifier::external_body]
fn parse_rfc3339(text: &str) -> (r: Option<(i64, u32)>)
    ensures
        r == rfc3339_instant(text@),
{
    text.parse::<chrono::DateTime<chrono::Utc>>().ok().map(|t| (t.timestamp(), t.timestamp_subsec_nanos()))
}

/// The nanoseconds from `from` to `to` (negative when `to` is earlier).
pub open spec fn nanos_between(from: (i64, u32), to: Timestamp) -> int {
    (to.secs - from.0) * 1_000_000_000 + (to.nanos - from.1)
}

/// The largest number of hours, either way, for which `chrono::TimeDelta::hours`
/// does not panic.
pub open spec fn max_ttl_hours() -> u64 {
    2_562_047_788_015
}

/// The TTL as the signed number of hours it becomes when cast to `i64`.
pub open spec fn signed_hours(ttl_hours: u64) -> int {
    if ttl_hours <= i64::MAX {
        ttl_hours as int
    } else {
        ttl_hours - 0x1_0000_0000_0000_0000
    }
}

/// The TTL makes a `chrono::TimeDelta`: its signed number of hours is within bounds.
pub open spec fn ttl_in_range(ttl_hours: u64) -> bool {
    -(max_ttl_hours() as int) <= signed_hours(ttl_hours) <= max_ttl_hours()
}

/// The fetch time that the text of a `fetched_at` file gives, once trimmed;
/// nothing when the file could not be read or holds no RFC 3339 time.
pub open spec fn fetch_time_of(fetched_at: Option<Seq<char>>) -> Option<(i64, u32)> {
    match fetched_at {
        None => None,
        Some(text) => rfc3339_instant(trim(text)),
    }
}

/// The cached index is stale at `now`: its fetch time could not be read or
/// parsed, or more than `ttl_hours` hours have passed since it.
pub open spec fn is_stale(fetched_at: Option<Seq<char>>, now: Timestamp, ttl_hours: u64) -> bool {
    match fetch_time_of(fetched_at) {
        None => true,
        Some(f) => nanos_between(f, now) > signed_hours(ttl_hours) * 3_600_000_000_000,
    }
}

/// The TTL can only be compared once the fetch time parsed, and then it is
/// past the bound of `chrono::TimeDelta::hours`.
pub open spec fn ttl_unusable(fetched_at: Option<Seq<char>>, ttl_hours: u64) -> bool {
    fetch_time_of(fetched_at) is Some && !ttl_in_range(ttl_hours)
}

/// `ttl_in_range`, computed.
pub fn ttl_fits(ttl_hours: u64) -> (r: bool)
    ensures
        r == ttl_in_range(ttl_hours),
{
    ttl_hours <= 2_562_047_788_015 || ttl_hours >= 18_446_741_511_661_763_601
}

/// Whether the cache must be fetched again: `fetched_at` is the text of the
/// cache's `fetched_at` file, or nothing when it could not be read. Nothing is
/// decided (`None`) when the fetch time parses and the TTL is past the bound of
/// `chrono::TimeDelta::hours`.
pub fn needs_refresh(fetched_at: Option<&str>, now: &Timestamp, ttl_hours: u64) -> (r: Option<bool>)
    ensures
        r == if ttl_unusable(text_of(fetched_at), ttl_hours) {
            None
        } else {
            Some(is_stale(text_of(fetched_at), *now, ttl_hours))
        },
{
    let text = match fetched_at {
        None => return Some(true),
        Some(t) => t,
    };
    let t = trimmed(text);
    match parse_rfc3339(t.as_str()) {
        None => Some(true),
        Some(fetched) => if ttl_fits(ttl_hours) {
            Some(expired(fetched, now, ttl_hours))
        } else {
            None
        },
    }
}

/// Whether more than `ttl_hours` hours separate the fetch instant `fetched`
/// (Unix seconds, nanoseconds) from `now`.
pub fn expired(fetched: (i64, u32), now: &Timestamp, ttl_hours: u64) -> (r: bool)
    requires
        ttl_in_range(ttl_hours),
    ensures
        r == (nanos_between(fetched, *now) > signed_hours(ttl_hours) * 3_600_000_000_000),
{
    let (secs, nanos) = fetched;
    let elapsed: i128 = (now.secs as i128 - secs as i128) * 1_000_000_000i128 + (now.nanos as i128
        - nanos as i128);
    let hours: i128 = if ttl_hours <= 9_223_372_036_854_775_807u64 {
        ttl_hours as i128
    } else {
        ttl_hours as i128 - 0x1_0000_0000_0000_0000i128
    };
    let limit: i128 = hours * 3_600_000_000_000i128;
    elapsed > limit
}

/// The fetcher, called with a string that holds `url`, gave `out`.
pub open spec fn fetched<F: Fn(&str) -> Result<String, String>>(
    fetcher: F,
    url: Seq<char>,
    out: Result<String, String>,
) -> bool {
    exists|u: &str| u@ == url && call_ensures(fetcher, (u,), out)
}

/// The text of a file that may not have been read.
pub open spec fn text_of(t: Option<&str>) -> Option<Seq<char>> {
    match t {
        Some(x) => Some(x@),
        None => None,
    }
}

/// Where the index of a hub comes from when it is read through the cache.
#[derive(Debug)]
pub enum CacheOutcome {
    /// The cache is fresh: the cached index is used.
    Fresh,
    /// The index was fetched (its text): it is stored and used.
    Fetched(String),
    /// The fetch failed (its message) and a cached index exists: it is used,
    /// with a warning.
    Stale(String),
    /// The fetch time parsed and the TTL is past the bound of
    /// `chrono::TimeDelta::hours`: nothing is read or fetched.
    TtlOutOfRange,
}

/// Reads a hub index through the cache: a fresh cache is used as it is; a
/// stale or missing one is fetched again from `index_url` with `fetcher`; a
/// failed fetch falls back on the cached index when there is one
/// (`has_cache`) and fails with the fetcher's message otherwise. A TTL past
/// chrono's bound is refused once the fetch time parsed.
pub fn cache_get_with<F: Fn(&str) -> Result<String, String>>(
    fetched_at: Option<&str>,
    has_cache: bool,
    now: &Timestamp,
    ttl_hours: u64,
    index_url: &str,
    fetcher: F,
) -> (r: Result<CacheOutcome, String>)
    requires
        forall|u: &str| call_requires(fetcher, (u,)),
    ensures
        ttl_unusable(text_of(fetched_at), ttl_hours) ==> (r matches Ok(CacheOutcome::TtlOutOfRange)),
        !ttl_unusable(text_of(fetched_at), ttl_hours) && !is_stale(text_of(fetched_at), *now, ttl_hours)
            ==> (r matches Ok(CacheOutcome::Fresh)),
        !ttl_unusable(text_of(fetched_at), ttl_hours) && is_stale(text_of(fetched_at), *now, ttl_hours)
            ==> match r {
            Ok(CacheOutcome::Fresh) => false,
            Ok(CacheOutcome::TtlOutOfRange) => false,
            Ok(CacheOutcome::Fetched(body)) => fetched(fetcher, index_url@, Ok(body)),
            Ok(CacheOutcome::Stale(m)) => has_cache && fetched(fetcher, index_url@, Err(m)),
            Err(m) => !has_cache && fetched(fetcher, index_url@, Err(m)),
        },
{
    match needs_refresh(fetched_at, now, ttl_hours) {
        None => {
            return Ok(CacheOutcome::TtlOutOfRange);
        },
        Some(false) => {
            return Ok(CacheOutcome::Fresh);
        },
        Some(true) => {},
    }
    match fetcher(index_url) {
        Ok(body) => Ok(CacheOutcome::Fetched(body)),
        Err(m) => if has_cache {
            Ok(CacheOutcome::Stale(m))
        } else {
            Err(m)
        },
    }
}

/// A cache without a readable fetch time is always fetched again.
pub proof fn unknown_fetch_time_is_stale(now: Timestamp, ttl_hours: u64)
    ensures
        is_stale(None, now, ttl_hours),
{
}

/// A longer TTL never asks for more fetches: what is stale under a TTL is
/// stale under every shorter one (TTLs up to `i64::MAX`, which the cast to
/// `i64` keeps as they are).
pub proof fn shorter_ttl_is_stricter(fetched_at: Option<Seq<char>>, now: Timestamp, short: u64, long: u64)
    requires
        short <= long <= i64::MAX,
        is_stale(fetched_at, now, long),
    ensures
        is_stale(fetched_at, now, short),
{
    let s = signed_hours(short);
    let l = signed_hours(long);
    assert(s * 3_600_000_000_000 <= l * 3_600_000_000_000) by (nonlinear_arith)
        requires
            s <= l,
    ;
}

/// The instant as nanoseconds since the Unix epoch.
pub open spec fn instant_nanos(t: Timestamp) -> int {
    t.secs * 1_000_000_000 + t.nanos
}

/// A cache that is stale stays stale as time goes on.
pub proof fn stale_stays_stale(fetched_at: Option<Seq<char>>, now: Timestamp, later: Timestamp, ttl_hours: u64)
    requires
        instant_nanos(now) <= instant_nanos(later),
        is_stale(fetched_at, now, ttl_hours),
    ensures
        is_stale(fetched_at, later, ttl_hours),
{
}

} // verus!
