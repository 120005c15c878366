use vstd::prelude::*;

use chrono::{Datelike, TimeZone};

verus! {

/// The first second chrono can represent: -262143-01-01 00:00:00 UTC.
pub const MIN_UTC_SECS: i64 = -8_334_601_228_800;

/// The last second chrono can represent: +262142-12-31 23:59:59 UTC.
pub const MAX_UTC_SECS: i64 = 8_210_266_876_799;

/// Whether chrono represents `secs` seconds and `nsecs` nanoseconds past the
/// Unix epoch as a `DateTime<Utc>` (`Utc.timestamp_opt(secs, nsecs).single()`):
/// the second lies in chrono's date range, and the nanoseconds are below one
/// second, or below two for a leap second, which chrono allows only on the
/// last second of a minute.
pub open spec fn chrono_utc_valid(secs: i64, nsecs: u32) -> bool {
    &&& MIN_UTC_SECS <= secs <= MAX_UTC_SECS
    &&& nsecs < 2_000_000_000
    &&& nsecs >= 1_000_000_000 ==> secs % 60 == 59
}

/// chrono's `Display` of the `DateTime<Utc>` for a valid pair
/// (such as `2023-11-14 22:13:20 UTC`).
pub uninterp spec fn chrono_utc_display(secs: i64, nsecs: u32) -> Seq<char>;

/// chrono's rendering of the `DateTime<Utc>` for a valid pair with the
/// format `%Y-%m-%d %H:%M:%S UTC`.
pub uninterp spec fn chrono_utc_format_ymd_hms(secs: i64, nsecs: u32) -> Seq<char>;

/// chrono's `DateTime::parse_from_rfc3339` of a text, as the UTC
/// (seconds, nanoseconds) of the parsed instant.
pub uninterp spec fn chrono_parse_rfc3339(text: Seq<char>) -> Option<(i64, u32)>;

/// chrono's `NaiveDate::parse_from_str(text, "%Y-%m-%d")`, as (year, month, day).
pub uninterp spec fn chrono_parse_ymd(text: Seq<char>) -> Option<(i32, u32, u32)>;

/// chrono's `NaiveDate::and_hms_opt(hour, min, sec)` on the date (year, month,
/// day), taken as UTC by `Utc.from_utc_datetime`, as seconds past the epoch.
pub uninterp spec fn chrono_ymd_hms_utc_secs(
    year: i32,
    month: u32,
    day: u32,
    hour: u32,
    min: u32,
    sec: u32,
) -> Option<i64>;

/// chrono's `NaiveDateTime::parse_from_str(text, "%Y-%m-%d %H:%M:%S")`, taken as
/// UTC by `Utc.from_utc_datetime`, as (seconds, nanoseconds) past the epoch.
pub uninterp spec fn chrono_parse_ymd_hms(text: Seq<char>) -> Option<(i64, u32)>;

/// chrono `Utc.timestamp_opt(secs, nsecs).single()`: whether the pair is an
/// instant chrono can represent.
#[verifier::external_body]
pub(crate) fn utc_timestamp_valid(secs: i64, nsecs: u32) -> (r: bool)
    ensures
        r == chrono_utc_valid(secs, nsecs),
{
    chrono::Utc.timestamp_opt(secs, nsecs).single().is_some()
}

/// chrono `Utc::now()`, as (seconds, nanoseconds) past the epoch. The value
/// depends on the clock; chrono documents that the pair of any `DateTime`
/// round-trips through `DateTime::from_timestamp`, so it is a valid pair.
#[verifier::external_body]
pub(crate) fn utc_now() -> (r: (i64, u32))
    ensures
        chrono_utc_valid(r.0, r.1),
{
    let now = chrono::Utc::now();
    (now.timestamp(), now.timestamp_subsec_nanos())
}

/// chrono's `Display` (`to_string`) of the `DateTime<Utc>` for a valid pair.
#[verifier::external_body]
pub(crate) fn utc_display(secs: i64, nsecs: u32) -> (r: String)
    requires
        chrono_utc_valid(secs, nsecs),
    ensures
        r@ == chrono_utc_display(secs, nsecs),
{
    chrono::Utc.timestamp_opt(secs, nsecs).unwrap().to_string()
}

/// chrono `DateTime::format("%Y-%m-%d %H:%M:%S UTC")` for a valid pair.
#[verifier::external_body]
pub(crate) fn utc_format_ymd_hms(secs: i64, nsecs: u32) -> (r: String)
    requires
        chrono_utc_valid(secs, nsecs),
    ensures
        r@ == chrono_utc_format_ymd_hms(secs, nsecs),
{
    chrono::Utc.timestamp_opt(secs, nsecs).unwrap().format("%Y-%m-%d %H:%M:%S UTC").to_string()
}

/// chrono `DateTime::parse_from_rfc3339`, converted to UTC (seconds, nanoseconds).
/// chrono documents that the pair of any `DateTime` round-trips, so a result is
/// a valid pair.
#[verifier::external_body]
pub(crate) fn parse_rfc3339(text: &str) -> (r: Option<(i64, u32)>)
    ensures
        r == chrono_parse_rfc3339(text@),
        r matches Some(p) ==> chrono_utc_valid(p.0, p.1),
{
    match chrono::DateTime::parse_from_rfc3339(text) {
        Ok(parsed) => Some((parsed.timestamp(), parsed.timestamp_subsec_nanos())),
        Err(_) => None,
    }
}

/// chrono `NaiveDate::parse_from_str(text, "%Y-%m-%d")`, as (year, month, day).
#[verifier::external_body]
pub(crate) fn parse_ymd(text: &str) -> (r: Option<(i32, u32, u32)>)
    ensures
        r == chrono_parse_ymd(text@),
{
    match chrono::NaiveDate::parse_from_str(text, "%Y-%m-%d") {
        Ok(date) => Some((date.year(), date.month(), date.day())),
        Err(_) => None,
    }
}

/// chrono `NaiveDate::and_hms_opt` on a date, taken as UTC by
/// `Utc.from_utc_datetime`, as seconds past the epoch; the result is a valid
/// whole-second instant.
#[verifier::external_body]
pub(crate) fn ymd_hms_utc_secs(
    year: i32,
    month: u32,
    day: u32,
    hour: u32,
    min: u32,
    sec: u32,
) -> (r: Option<i64>)
    ensures
        r == chrono_ymd_hms_utc_secs(year, month, day, hour, min, sec),
        r matches Some(s) ==> chrono_utc_valid(s, 0),
{
    let date = chrono::NaiveDate::from_ymd_opt(year, month, day)?;
    let naive = date.and_hms_opt(hour, min, sec)?;
    Some(chrono::Utc.from_utc_datetime(&naive).timestamp())
}

/// chrono `NaiveDateTime::parse_from_str(text, "%Y-%m-%d %H:%M:%S")`, taken as
/// UTC by `Utc.from_utc_datetime`, as (seconds, nanoseconds); a result is a
/// valid pair.
#[verifier::external_body]
pub(crate) fn parse_ymd_hms(text: &str) -> (r: Option<(i64, u32)>)
    ensures
        r == chrono_parse_ymd_hms(text@),
        r matches Some(p) ==> chrono_utc_valid(p.0, p.1),
{
    match chrono::NaiveDateTime::parse_from_str(text, "%Y-%m-%d %H:%M:%S") {
        Ok(naive) => {
            let utc = chrono::Utc.from_utc_datetime(&naive);
            Some((utc.timestamp(), utc.timestamp_subsec_nanos()))
        },
        Err(_) => None,
    }
}

} // verus!
