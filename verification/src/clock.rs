//! Local dates of time stamps, and how long they last.

use vstd::prelude::*;
use crate::dates::{self, CivilDate};
use crate::text;

verus! {

/// The first time stamp that has a date, in milliseconds since 1970.
pub const MIN_UNIX_MS: i64 = -8_334_601_228_800_000;

/// The last time stamp that has a date, in milliseconds since 1970.
pub const MAX_UNIX_MS: i64 = 8_210_266_876_799_999;

/// How far ahead the next local date is looked for, in milliseconds.
pub const SEARCH_WINDOW_MS: i64 = 48 * 60 * 60 * 1000;

/// `chrono_tz::Tz` knows the time zone by this name.
pub uninterp spec fn timezone_known(timezone: Seq<char>) -> bool;

/// The date of a time stamp in a time zone that `chrono_tz::Tz` knows, as
/// `chrono::DateTime::format` writes it by `%Y-%m-%d`.
pub uninterp spec fn zoned_date(unix_ms: i64, timezone: Seq<char>) -> Seq<char>;

/// The time stamp has a date.
pub open spec fn dated(unix_ms: int) -> bool {
    MIN_UNIX_MS <= unix_ms <= MAX_UNIX_MS
}

/// The number of the day that a time stamp falls on in UTC.
pub open spec fn utc_day(unix_ms: int) -> int {
    unix_ms / 86_400_000 + 719_163
}

/// The text is a date, written with year, month and day: that of the day that the time
/// stamp falls on in UTC, or of the day before or after.
pub open spec fn near_date(date: Seq<char>, unix_ms: int) -> bool {
    exists|d: CivilDate|
        {
            &&& #[trigger] dates::written(d) == date
            &&& 1 <= d.month <= 12
            &&& 1 <= d.day <= dates::month_days(d.year as int, d.month as int)
            &&& -1 <= d.number() - utc_day(unix_ms) <= 1
        }
}

/// Asks `chrono_tz::Tz::from_str` whether it knows the name. The names are compiled
/// into the crate, so the answer depends on the text alone.
#[verifier::external_body]
fn is_known_timezone(timezone: &str) -> (r: bool)
    ensures
        r == timezone_known(timezone@),
{
    timezone.parse::<chrono_tz::Tz>().is_ok()
}

/// The local date of a time stamp, by `chrono::DateTime::from_timestamp_millis`,
/// `with_timezone` and `format`. It is there exactly where the zone is known and the
/// time stamp is one of the years that chrono can hold; it depends on the two
/// arguments alone. Offsets are shorter than a day, so it is a date no more than a day
/// from the one in UTC; which of the three is up to the zone's rules.
#[verifier::external_body]
fn local_date(unix_ms: i64, timezone: &str) -> (r: Option<String>)
    ensures
        r is Some == (timezone_known(timezone@) && dated(unix_ms as int)),
        r is Some ==> r->0@ == zoned_date(unix_ms, timezone@),
        r is Some ==> near_date(r->0@, unix_ms as int),
{
    let zone = timezone.parse::<chrono_tz::Tz>().ok()?;
    let time = chrono::DateTime::<chrono::Utc>::from_timestamp_millis(unix_ms)?;
    Some(time.with_timezone(&zone).format("%Y-%m-%d").to_string())
}

/// What is said of an unknown time zone.
pub open spec fn unknown_timezone(timezone: Seq<char>) -> Seq<char> {
    "invalid timezone `"@ + timezone + "`"@
}

/// Why a time stamp has no local date, if it has none.
pub open spec fn date_fault(unix_ms: int, timezone: Seq<char>) -> Option<Seq<char>> {
    if !timezone_known(timezone) {
        Some(unknown_timezone(timezone))
    } else if !dated(unix_ms) {
        Some("invalid fetched_at_unix_ms"@)
    } else {
        None
    }
}

/// The local date of a time stamp.
pub fn date_for_tz(unix_ms: i64, timezone: &str) -> (r: Result<String, String>)
    ensures
        match r {
            Ok(d) => {
                &&& date_fault(unix_ms as int, timezone@) is None
                &&& d@ == zoned_date(unix_ms, timezone@)
                &&& near_date(d@, unix_ms as int)
            },
            Err(m) => date_fault(unix_ms as int, timezone@) == Some(m@),
        },
{
    if !is_known_timezone(timezone) {
        return Err(text::cat("invalid timezone `", timezone).concat("`"));
    }
    match local_date(unix_ms, timezone) {
        Some(d) => Ok(d),
        None => Err("invalid fetched_at_unix_ms".to_owned()),
    }
}

/// Checks that a time zone is known.
pub fn check_timezone(timezone: &str) -> (r: Result<(), String>)
    ensures
        match r {
            Ok(_) => timezone_known(timezone@),
            Err(m) => !timezone_known(timezone@) && m@ == unknown_timezone(timezone@),
        },
{
    if is_known_timezone(timezone) {
        Ok(())
    } else {
        Err(text::cat("invalid timezone `", timezone).concat("`"))
    }
}

/// Why the end of a local date cannot be told, if it cannot.
pub open spec fn change_fault(unix_ms: int, timezone: Seq<char>) -> Option<Seq<char>> {
    let end = unix_ms + SEARCH_WINDOW_MS;
    if date_fault(unix_ms, timezone) is Some {
        date_fault(unix_ms, timezone)
    } else if end > i64::MAX {
        Some("timestamp overflow while locating next local date"@)
    } else if !dated(end) {
        Some("invalid fetched_at_unix_ms"@)
    } else if zoned_date(end as i64, timezone) == zoned_date(unix_ms as i64, timezone) {
        Some("local date did not change within 48 hours for `"@ + timezone + "`"@)
    } else {
        None
    }
}

/// After `wait` milliseconds, and not a millisecond earlier, the time stamp has
/// left its local date.
pub open spec fn leaves_date(unix_ms: int, wait: int, timezone: Seq<char>) -> bool {
    &&& 1 <= wait <= SEARCH_WINDOW_MS
    &&& zoned_date((unix_ms + wait) as i64, timezone) != zoned_date(unix_ms as i64, timezone)
    &&& zoned_date((unix_ms + wait - 1) as i64, timezone) == zoned_date(unix_ms as i64, timezone)
}

/// The local date of a time stamp, and the milliseconds until it changes. Days need
/// not have 24 hours.
pub fn local_date_and_next_change(unix_ms: i64, timezone: &str) -> (r: Result<
    (String, u64),
    String,
>)
    ensures
        match r {
            Ok((date, wait)) => {
                &&& change_fault(unix_ms as int, timezone@) is None
                &&& date@ == zoned_date(unix_ms, timezone@)
                &&& near_date(date@, unix_ms as int)
                &&& leaves_date(unix_ms as int, wait as int, timezone@)
            },
            Err(m) => change_fault(unix_ms as int, timezone@) == Some(m@),
        },
{
    let current = match date_for_tz(unix_ms, timezone) {
        Ok(d) => d,
        Err(m) => {
            return Err(m);
        },
    };
    let mut low: i64 = unix_ms;
    let mut high: i64 = match unix_ms.checked_add(SEARCH_WINDOW_MS) {
        Some(high) => high,
        None => {
            return Err("timestamp overflow while locating next local date".to_owned());
        },
    };
    match local_date(high, timezone) {
        None => {
            return Err("invalid fetched_at_unix_ms".to_owned());
        },
        Some(d) => {
            if text::same(d.as_str(), current.as_str()) {
                return Err(
                    text::cat("local date did not change within 48 hours for `", timezone).concat(
                        "`",
                    ),
                );
            }
        },
    }
    while high - low > 1
        invariant
            MIN_UNIX_MS <= unix_ms,
            unix_ms <= low < high <= unix_ms + SEARCH_WINDOW_MS,
            unix_ms + SEARCH_WINDOW_MS <= MAX_UNIX_MS,
            timezone_known(timezone@),
            current@ == zoned_date(unix_ms, timezone@),
            zoned_date(low, timezone@) == current@,
            zoned_date(high, timezone@) != current@,
        decreases high - low,
    {
        let middle: i64 = low + (high - low) / 2;
        match local_date(middle, timezone) {
            Some(d) => {
                if text::same(d.as_str(), current.as_str()) {
                    low = middle;
                } else {
                    high = middle;
                }
            },
            None => {
                assert(false);
                return Err("invalid fetched_at_unix_ms".to_owned());
            },
        }
    }
    let wait: u64 = (high - unix_ms) as u64;
    Ok((current, wait))
}

/// Where a local date, once left, does not come back within the window, the change
/// that is found is the first one: every moment before it has the same date.
pub proof fn found_change_is_the_first(unix_ms: int, wait: int, timezone: Seq<char>, earlier: int)
    requires
        leaves_date(unix_ms, wait, timezone),
        forall|a: int, b: int|
            0 <= a <= b <= SEARCH_WINDOW_MS && #[trigger] zoned_date(
                (unix_ms + b) as i64,
                timezone,
            ) == zoned_date(unix_ms as i64, timezone) ==> #[trigger] zoned_date(
                (unix_ms + a) as i64,
                timezone,
            ) == zoned_date(unix_ms as i64, timezone),
        0 <= earlier < wait,
    ensures
        zoned_date((unix_ms + earlier) as i64, timezone) == zoned_date(unix_ms as i64, timezone),
{
    let last = wait - 1;
    assert(zoned_date((unix_ms + last) as i64, timezone) == zoned_date(unix_ms as i64, timezone));
    assert(0 <= earlier <= last <= SEARCH_WINDOW_MS);
}

/// A cached snapshot counts as fresh: it is younger than its time to live, and it was
/// fetched on the local date of the present.
pub open spec fn cache_fresh(
    fetched_at: int,
    now: int,
    ttl_seconds: int,
    timezone: Seq<char>,
) -> bool {
    young(fetched_at, now, ttl_seconds) && zoned_date(fetched_at as i64, timezone) == zoned_date(
        now as i64,
        timezone,
    )
}

/// The age in milliseconds is under the time to live; a clock that went back makes
/// no age, and no age and no time to live is counted over the largest time stamp.
pub open spec fn young(fetched_at: int, now: int, ttl_seconds: int) -> bool {
    let age = if now - fetched_at > i64::MAX {
        i64::MAX as int
    } else if now - fetched_at < 0 {
        0
    } else {
        now - fetched_at
    };
    let ttl = if ttl_seconds * 1000 > i64::MAX {
        i64::MAX as int
    } else {
        ttl_seconds * 1000
    };
    age < ttl
}

/// Whether a cached snapshot counts as fresh. The dates are looked at only where the
/// age is under the time to live, and an error is theirs.
pub fn cached_snapshot_is_fresh(
    fetched_at_unix_ms: i64,
    now_unix_ms: i64,
    ttl_seconds: u64,
    timezone: &str,
) -> (r: Result<bool, String>)
    ensures
        match r {
            Ok(fresh) => {
                &&& fresh == cache_fresh(
                    fetched_at_unix_ms as int,
                    now_unix_ms as int,
                    ttl_seconds as int,
                    timezone@,
                )
                &&& young(fetched_at_unix_ms as int, now_unix_ms as int, ttl_seconds as int) ==> {
                    &&& date_fault(fetched_at_unix_ms as int, timezone@) is None
                    &&& date_fault(now_unix_ms as int, timezone@) is None
                }
            },
            Err(m) => {
                &&& young(fetched_at_unix_ms as int, now_unix_ms as int, ttl_seconds as int)
                &&& if date_fault(fetched_at_unix_ms as int, timezone@) is Some {
                    date_fault(fetched_at_unix_ms as int, timezone@) == Some(m@)
                } else {
                    date_fault(now_unix_ms as int, timezone@) == Some(m@)
                }
            },
        },
{
    let limit: i128 = 9_223_372_036_854_775_807;
    let wide: i128 = ttl_seconds as i128 * 1000;
    let ttl: i128 = if wide > limit {
        limit
    } else {
        wide
    };
    let difference: i128 = now_unix_ms as i128 - fetched_at_unix_ms as i128;
    let age: i128 = if difference > limit {
        limit
    } else if difference < 0 {
        0
    } else {
        difference
    };
    if age >= ttl {
        return Ok(false);
    }
    let fetched = match date_for_tz(fetched_at_unix_ms, timezone) {
        Ok(d) => d,
        Err(m) => {
            return Err(m);
        },
    };
    let now = match date_for_tz(now_unix_ms, timezone) {
        Ok(d) => d,
        Err(m) => {
            return Err(m);
        },
    };
    Ok(text::same(fetched.as_str(), now.as_str()))
}

/// A snapshot is young until its time to live has passed, to the millisecond; one that was
/// fetched after the present is as young as can be.
pub proof fn snapshots_age(fetched_at: int, now: int, ttl_seconds: int)
    requires
        i64::MIN <= fetched_at <= i64::MAX,
        i64::MIN <= now <= i64::MAX,
        0 <= ttl_seconds,
    ensures
        fetched_at <= now < fetched_at + ttl_seconds * 1000 && now - fetched_at < i64::MAX
            ==> young(fetched_at, now, ttl_seconds),
        now >= fetched_at + ttl_seconds * 1000 && now >= fetched_at && ttl_seconds * 1000
            <= i64::MAX ==> !young(fetched_at, now, ttl_seconds),
        now < fetched_at && ttl_seconds > 0 ==> young(fetched_at, now, ttl_seconds),
        ttl_seconds == 0 ==> !young(fetched_at, now, ttl_seconds),
        now - fetched_at >= i64::MAX ==> !young(fetched_at, now, ttl_seconds),
{
}

/// A cached snapshot is fresh until its time to live has passed, and on the local date of
/// its fetch only.
pub proof fn snapshots_are_fresh_for_a_while(
    fetched_at: i64,
    now: i64,
    ttl_seconds: u64,
    timezone: Seq<char>,
)
    requires
        fetched_at <= now,
        now - fetched_at < i64::MAX,
    ensures
        cache_fresh(fetched_at as int, now as int, ttl_seconds as int, timezone) <==> {
            &&& now < fetched_at + ttl_seconds * 1000
            &&& zoned_date(fetched_at, timezone) == zoned_date(now, timezone)
        },
{
}

/// A time stamp has a local date exactly where the time zone is known and the stamp is one
/// of the years that there are; an unknown zone is what is complained of first.
pub proof fn local_dates_are_told(unix_ms: int, timezone: Seq<char>)
    ensures
        date_fault(unix_ms, timezone) is None <==> timezone_known(timezone)
            && -8_334_601_228_800_000 <= unix_ms <= 8_210_266_876_799_999,
        !timezone_known(timezone) ==> date_fault(unix_ms, timezone) == Some(
            "invalid timezone `"@ + timezone + "`"@,
        ),
{
}

/// The end of a local date is told exactly where the date is, where there is a date two days
/// later, and where that is another one.
pub proof fn ends_of_dates_are_told(unix_ms: i64, timezone: Seq<char>)
    ensures
        change_fault(unix_ms as int, timezone) is None <==> {
            &&& timezone_known(timezone)
            &&& -8_334_601_228_800_000 <= unix_ms
            &&& unix_ms + 172_800_000 <= 8_210_266_876_799_999
            &&& zoned_date((unix_ms + 172_800_000) as i64, timezone) != zoned_date(
                unix_ms,
                timezone,
            )
        },
{
}

/// The wait until the end of a local date ends on another date, and a millisecond earlier it
/// is still the date; it takes two days at most.
pub proof fn waits_end_with_the_date(unix_ms: i64, wait: int, timezone: Seq<char>)
    requires
        leaves_date(unix_ms as int, wait, timezone),
    ensures
        1 <= wait <= 172_800_000,
        zoned_date((unix_ms + wait) as i64, timezone) != zoned_date(unix_ms, timezone),
        zoned_date((unix_ms + wait - 1) as i64, timezone) == zoned_date(unix_ms, timezone),
{
}

/// A date or an end of a date that cannot be told is told why.
pub proof fn untold_dates_are_told_why(unix_ms: int, timezone: Seq<char>)
    ensures
        unknown_timezone(timezone) == "invalid timezone `"@ + timezone + "`"@,
        date_fault(unix_ms, timezone) is Some && timezone_known(timezone) ==> date_fault(
            unix_ms,
            timezone,
        ) == Some("invalid fetched_at_unix_ms"@),
        date_fault(unix_ms, timezone) is Some ==> change_fault(unix_ms, timezone) == date_fault(
            unix_ms,
            timezone,
        ),
        date_fault(unix_ms, timezone) is None && change_fault(unix_ms, timezone) is Some && unix_ms
            + 172_800_000 <= 8_210_266_876_799_999 ==> change_fault(unix_ms, timezone) == Some(
            "local date did not change within 48 hours for `"@ + timezone + "`"@,
        ),
{
}

} // verus!
