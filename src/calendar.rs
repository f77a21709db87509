//! Dates and times of the pond, all on one fixed clock (UTC).
//!
//! A moment is a count of milliseconds since the Unix epoch; a day is written
//! as `YYYY-MM-DD`. Formatting and parsing are chrono's.

use vstd::prelude::*;

verus! {

/// Milliseconds in one day.
pub const DAY_MS: u64 = 86_400_000;

/// The largest moment, in milliseconds, that the calendar handles: about
/// 250,000 years after the epoch, inside chrono's range of dates.
pub const MAX_TIMESTAMP_MS: u64 = 8_000_000_000_000_000;

/// The `YYYY-MM-DD` text of the UTC date at moment `ms`.
pub uninterp spec fn utc_date_text(ms: int) -> Seq<char>;

/// The RFC 3339 text of the moment `ms`, in UTC.
pub uninterp spec fn rfc3339_text(ms: int) -> Seq<char>;

/// The date text at `ms` is the text at another moment in range exactly
/// when the two fall on the same UTC day.
pub open spec fn day_text_law(ms: int) -> bool {
    forall|b: int|
        -(MAX_TIMESTAMP_MS as int) <= b <= MAX_TIMESTAMP_MS ==> (utc_date_text(ms) == #[trigger] utc_date_text(b)
            <==> ms / (DAY_MS as int) == b / (DAY_MS as int))
}

/// The day number (days since 1970-01-01) of a `YYYY-MM-DD` text, or `None`
/// where the text is not such a date.
pub uninterp spec fn parsed_epoch_day(s: Seq<char>) -> Option<i64>;

/// The day number that a stored date counts as: an unreadable date counts as
/// the epoch day, so it always looks long overdue.
pub open spec fn day_or_epoch(s: Seq<char>) -> int {
    match parsed_epoch_day(s) {
        Some(d) => d as int,
        None => 0,
    }
}

/// Relies on chrono's `DateTime::<Utc>::from_timestamp_millis` and
/// `format("%Y-%m-%d")`: the UTC date of a moment, which is in range here.
/// That date is 1970-01-01 plus the floor of `ms / DAY_MS` days, and the
/// format writes distinct dates as distinct texts, so two moments give the
/// same text exactly when they fall on the same day.
#[verifier::external_body]
fn utc_date_string(ms: i64) -> (r: String)
    requires
        -(MAX_TIMESTAMP_MS as int) <= ms <= MAX_TIMESTAMP_MS,
    ensures
        r@ == utc_date_text(ms as int),
        forall|b: int|
            -(MAX_TIMESTAMP_MS as int) <= b <= MAX_TIMESTAMP_MS ==> (r@ == #[trigger] utc_date_text(b)
                <==> (ms as int) / (DAY_MS as int) == b / (DAY_MS as int)),
{
    match chrono::DateTime::<chrono::Utc>::from_timestamp_millis(ms) {
        Some(t) => t.format("%Y-%m-%d").to_string(),
        None => String::new(),
    }
}

/// Relies on chrono's `DateTime::<Utc>::from_timestamp_millis` and
/// `to_rfc3339`: the full text of a moment, which is in range here.
#[verifier::external_body]
fn utc_rfc3339_string(ms: i64) -> (r: String)
    requires
        -(MAX_TIMESTAMP_MS as int) <= ms <= MAX_TIMESTAMP_MS,
    ensures
        r@ == rfc3339_text(ms as int),
{
    match chrono::DateTime::<chrono::Utc>::from_timestamp_millis(ms) {
        Some(t) => t.to_rfc3339(),
        None => String::new(),
    }
}

/// Relies on chrono's `NaiveDate::parse_from_str(s, "%Y-%m-%d")`, then
/// `signed_duration_since` of 1970-01-01 and `num_days`. Every `NaiveDate`
/// lies within years -262143 to 262142, so its day number is below 10^8 in
/// magnitude.
#[verifier::external_body]
fn parse_epoch_day(s: &str) -> (r: Option<i64>)
    ensures
        r == parsed_epoch_day(s@),
        r matches Some(d) ==> -100_000_000 <= d <= 100_000_000,
{
    match chrono::NaiveDate::parse_from_str(s, "%Y-%m-%d") {
        Ok(d) => Some(d.signed_duration_since(chrono::DateTime::UNIX_EPOCH.date_naive()).num_days()),
        Err(_) => None,
    }
}

/// Relies on chrono's `From<SystemTime> for DateTime<Utc>` and
/// `timestamp_millis`: the wall clock now, in milliseconds since the epoch,
/// negative for a clock set before 1970. Nothing more is known of the value.
#[verifier::external_body]
fn clock_millis() -> (r: i64) {
    chrono::DateTime::<chrono::Utc>::from(std::time::SystemTime::now()).timestamp_millis()
}

/// A clock reading `t` in milliseconds, brought into the calendar's range:
/// 0 for a reading before the epoch, `MAX_TIMESTAMP_MS` for one beyond the
/// range, else the reading itself.
pub fn clamp_timestamp(t: i64) -> (r: u64)
    ensures
        t < 0 ==> r == 0,
        t > MAX_TIMESTAMP_MS ==> r == MAX_TIMESTAMP_MS,
        0 <= t <= MAX_TIMESTAMP_MS ==> r == t,
{
    if t < 0 {
        0
    } else if t > MAX_TIMESTAMP_MS as i64 {
        MAX_TIMESTAMP_MS
    } else {
        t as u64
    }
}

/// The current moment in milliseconds since the epoch, read from the wall
/// clock and brought into the calendar's range by `clamp_timestamp`.
pub fn default_timestamp() -> (r: u64)
    ensures
        r <= MAX_TIMESTAMP_MS,
{
    clamp_timestamp(clock_millis())
}

/// The `YYYY-MM-DD` UTC date of the moment `timestamp`.
pub fn get_date_string(timestamp: u64) -> (r: String)
    requires
        timestamp <= MAX_TIMESTAMP_MS,
    ensures
        r@ == utc_date_text(timestamp as int),
        day_text_law(timestamp as int),
{
    utc_date_string(timestamp as i64)
}

/// The `YYYY-MM-DD` UTC date one day before the moment `now`.
pub fn get_yesterday_date_string(now: u64) -> (r: String)
    requires
        now <= MAX_TIMESTAMP_MS,
    ensures
        r@ == utc_date_text(now - DAY_MS),
        day_text_law(now - DAY_MS),
{
    utc_date_string(now as i64 - DAY_MS as i64)
}

/// The RFC 3339 text of the moment `timestamp`.
pub fn get_timestamp_string(timestamp: u64) -> (r: String)
    requires
        timestamp <= MAX_TIMESTAMP_MS,
    ensures
        r@ == rfc3339_text(timestamp as int),
{
    utc_rfc3339_string(timestamp as i64)
}

/// The number of days from `date1` to `date2`, both `YYYY-MM-DD`; an
/// unreadable date counts as 1970-01-01.
pub fn get_days_difference(date1: &str, date2: &str) -> (r: i64)
    ensures
        r == day_or_epoch(date2@) - day_or_epoch(date1@),
{
    let d1: i64 = match parse_epoch_day(date1) {
        Some(d) => d,
        None => 0,
    };
    let d2: i64 = match parse_epoch_day(date2) {
        Some(d) => d,
        None => 0,
    };
    d2 - d1
}

/// Whether the moments `last_reset` and `now` fall on different UTC dates:
/// the day window that began at `last_reset` has then ended.
pub fn should_reset(last_reset: u64, now: u64) -> (r: bool)
    requires
        last_reset <= MAX_TIMESTAMP_MS,
        now <= MAX_TIMESTAMP_MS,
    ensures
        r == (utc_date_text(last_reset as int) != utc_date_text(now as int)),
        r == (last_reset / DAY_MS != now / DAY_MS),
{
    let last_date = get_date_string(last_reset);
    let now_date = get_date_string(now);
    last_date != now_date
}

} // verus!
