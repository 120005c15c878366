use vstd::prelude::*;

use crate::clock::{
    chrono_parse_rfc3339, chrono_parse_ymd, chrono_parse_ymd_hms, chrono_utc_valid,
    chrono_ymd_hms_utc_secs,
    parse_rfc3339, parse_ymd, parse_ymd_hms, ymd_hms_utc_secs,
};
use crate::model::{
    events_view, records_view, ts_lt, EventView, MacbRecord, RecordView, TimelineEvent, Timestamp,
};
use crate::text::{append_str, trim, trim_spec};

verus! {

/// Why a time range could not be built from user input.
#[derive(Debug)]
pub enum TimeRangeError {
    /// The bound is empty once surrounding white space is removed.
    EmptyValue,
    /// A `YYYY-MM-DD` date whose day bounds chrono cannot form.
    InvalidDateComponents,
    /// A bound in none of the accepted forms; holds the trimmed text.
    InvalidTime(String),
    /// `--since` is later than `--until`.
    SinceAfterUntil,
}

/// A `TimeRangeError` with its text as a sequence of characters.
pub enum TimeRangeErrorView {
    EmptyValue,
    InvalidDateComponents,
    InvalidTime(Seq<char>),
    SinceAfterUntil,
}

impl View for TimeRangeError {
    type V = TimeRangeErrorView;

    open spec fn view(&self) -> TimeRangeErrorView {
        match self {
            TimeRangeError::EmptyValue => TimeRangeErrorView::EmptyValue,
            TimeRangeError::InvalidDateComponents => TimeRangeErrorView::InvalidDateComponents,
            TimeRangeError::InvalidTime(t) => TimeRangeErrorView::InvalidTime(t@),
            TimeRangeError::SinceAfterUntil => TimeRangeErrorView::SinceAfterUntil,
        }
    }
}

/// The message shown for an error.
pub open spec fn time_range_message_spec(e: TimeRangeErrorView) -> Seq<char> {
    match e {
        TimeRangeErrorView::EmptyValue => "time value cannot be empty"@,
        TimeRangeErrorView::InvalidDateComponents => "invalid date components"@,
        TimeRangeErrorView::InvalidTime(t) => "invalid time '"@ + t
            + "': use RFC 3339 (e.g. 2024-01-15T10:30:00Z) or YYYY-MM-DD"@,
        TimeRangeErrorView::SinceAfterUntil => "--since must be before or equal to --until"@,
    }
}

impl TimeRangeError {
    pub fn message(&self) -> (r: String)
        ensures
            r@ == time_range_message_spec(self@),
    {
        let mut out = String::new();
        match self {
            TimeRangeError::EmptyValue => append_str(&mut out, "time value cannot be empty"),
            TimeRangeError::InvalidDateComponents => append_str(&mut out, "invalid date components"),
            TimeRangeError::InvalidTime(t) => {
                append_str(&mut out, "invalid time '");
                append_str(&mut out, t.as_str());
                append_str(&mut out, "': use RFC 3339 (e.g. 2024-01-15T10:30:00Z) or YYYY-MM-DD");
            },
            TimeRangeError::SinceAfterUntil => {
                append_str(&mut out, "--since must be before or equal to --until")
            },
        }
        out
    }
}

/// Time of day that a date-only bound takes: the first second of the day for
/// `--since`, the last one for `--until`.
pub open spec fn bound_hms(is_until: bool) -> (u32, u32, u32) {
    if is_until {
        (23u32, 59u32, 59u32)
    } else {
        (0u32, 0u32, 0u32)
    }
}

/// The bound a trimmed, non-empty text gives, from what chrono made of it:
/// its RFC 3339 reading first, then its `YYYY-MM-DD` reading (`day_bound`:
/// the day's bounding second, when chrono could form it), then its
/// `YYYY-MM-DD HH:MM:SS` reading.
pub open spec fn select_bound_spec(
    trimmed: Seq<char>,
    rfc3339: Option<(i64, u32)>,
    day_bound: Option<Option<i64>>,
    date_time: Option<(i64, u32)>,
) -> Result<(i64, u32), TimeRangeErrorView> {
    match rfc3339 {
        Some(p) => Ok(p),
        None => match day_bound {
            Some(Some(secs)) => Ok((secs, 0u32)),
            Some(None) => Err(TimeRangeErrorView::InvalidDateComponents),
            None => match date_time {
                Some(p) => Ok(p),
                None => Err(TimeRangeErrorView::InvalidTime(trimmed)),
            },
        },
    }
}

/// chrono's `YYYY-MM-DD` reading of a text turned into a bound: the day's
/// first second for `since`, its last for `until`.
pub open spec fn day_bound_spec(t: Seq<char>, is_until: bool) -> Option<Option<i64>> {
    match chrono_parse_ymd(t) {
        Some(d) => {
            let hms = bound_hms(is_until);
            Some(chrono_ymd_hms_utc_secs(d.0, d.1, d.2, hms.0, hms.1, hms.2))
        },
        None => None,
    }
}

/// The instant a bound text denotes, as (seconds, nanoseconds), or the error.
/// The trimmed text is read as RFC 3339, then as `YYYY-MM-DD`, then as
/// `YYYY-MM-DD HH:MM:SS` (taken as UTC).
pub open spec fn time_bound_spec(value: Seq<char>, is_until: bool) -> Result<
    (i64, u32),
    TimeRangeErrorView,
> {
    let t = trim_spec(value);
    if t.len() == 0 {
        Err(TimeRangeErrorView::EmptyValue)
    } else {
        select_bound_spec(t, chrono_parse_rfc3339(t), day_bound_spec(t, is_until), chrono_parse_ymd_hms(t))
    }
}

/// A timestamp as its (seconds, nanoseconds) pair.
pub open spec fn ts_pair(t: Timestamp) -> (i64, u32) {
    (t.spec_secs(), t.spec_nanos())
}

pub open spec fn opt_ts_pair(t: Option<Timestamp>) -> Option<(i64, u32)> {
    match t {
        Some(v) => Some(ts_pair(v)),
        None => None,
    }
}

/// A computed result agrees with the (seconds, nanoseconds) result of a spec.
pub open spec fn bound_agrees(
    r: Result<Timestamp, TimeRangeError>,
    s: Result<(i64, u32), TimeRangeErrorView>,
) -> bool {
    match (r, s) {
        (Ok(t), Ok(p)) => ts_pair(t) == p,
        (Err(e), Err(ev)) => e@ == ev,
        _ => false,
    }
}

/// Chooses the bound of a trimmed, non-empty text among chrono's readings of
/// it (see `select_bound_spec`); the readings given are instants chrono
/// represents.
pub fn select_time_bound(
    trimmed: String,
    rfc3339: Option<(i64, u32)>,
    day_bound: Option<Option<i64>>,
    date_time: Option<(i64, u32)>,
) -> (r: Result<Timestamp, TimeRangeError>)
    requires
        rfc3339 matches Some(p) ==> chrono_utc_valid(p.0, p.1),
        day_bound matches Some(Some(secs)) ==> chrono_utc_valid(secs, 0),
        date_time matches Some(p) ==> chrono_utc_valid(p.0, p.1),
    ensures
        bound_agrees(r, select_bound_spec(trimmed@, rfc3339, day_bound, date_time)),
{
    if let Some(p) = rfc3339 {
        return Ok(Timestamp::from_valid_parts(p.0, p.1));
    }
    match day_bound {
        Some(Some(secs)) => Ok(Timestamp::from_valid_parts(secs, 0)),
        Some(None) => Err(TimeRangeError::InvalidDateComponents),
        None => match date_time {
            Some(p) => Ok(Timestamp::from_valid_parts(p.0, p.1)),
            None => Err(TimeRangeError::InvalidTime(trimmed)),
        },
    }
}

/// Parses one bound of a time range.
pub fn parse_time_bound(value: &str, is_until: bool) -> (r: Result<Timestamp, TimeRangeError>)
    ensures
        bound_agrees(r, time_bound_spec(value@, is_until)),
{
    let trimmed = trim(value);
    if trimmed.as_str().unicode_len() == 0 {
        return Err(TimeRangeError::EmptyValue);
    }
    let rfc3339 = parse_rfc3339(trimmed.as_str());
    let day_bound = if rfc3339.is_some() {
        None
    } else {
        match parse_ymd(trimmed.as_str()) {
            Some(d) => if is_until {
                Some(ymd_hms_utc_secs(d.0, d.1, d.2, 23, 59, 59))
            } else {
                Some(ymd_hms_utc_secs(d.0, d.1, d.2, 0, 0, 0))
            },
            None => None,
        }
    };
    let date_time = if rfc3339.is_some() || day_bound.is_some() {
        None
    } else {
        parse_ymd_hms(trimmed.as_str())
    };
    select_time_bound(trimmed, rfc3339, day_bound, date_time)
}

/// An optional bound: absent, parsed, or the error of parsing it.
pub open spec fn opt_bound_spec(value: Option<Seq<char>>, is_until: bool) -> Result<
    Option<(i64, u32)>,
    TimeRangeErrorView,
> {
    match value {
        None => Ok(None),
        Some(v) => match time_bound_spec(v, is_until) {
            Ok(p) => Ok(Some(p)),
            Err(e) => Err(e),
        },
    }
}

/// `a` is strictly earlier than `b`.
pub open spec fn pair_lt(a: (i64, u32), b: (i64, u32)) -> bool {
    a.0 < b.0 || (a.0 == b.0 && a.1 < b.1)
}

/// The (since, until) pairs a range is parsed to, or the first error: that of
/// `since`, then that of `until`, then a `since` later than `until`.
pub open spec fn range_parse_spec(since: Option<Seq<char>>, until: Option<Seq<char>>) -> Result<
    (Option<(i64, u32)>, Option<(i64, u32)>),
    TimeRangeErrorView,
> {
    match opt_bound_spec(since, false) {
        Err(e) => Err(e),
        Ok(s) => match opt_bound_spec(until, true) {
            Err(e) => Err(e),
            Ok(u) => if s is Some && u is Some && pair_lt(u->0, s->0) {
                Err(TimeRangeErrorView::SinceAfterUntil)
            } else {
                Ok((s, u))
            },
        },
    }
}

pub open spec fn opt_str_view(v: Option<&str>) -> Option<Seq<char>> {
    match v {
        Some(s) => Some(s@),
        None => None,
    }
}

/// An inclusive window of instants; either end may be open.
#[derive(Debug, Clone, Copy)]
pub struct TimeRange {
    pub since: Option<Timestamp>,
    pub until: Option<Timestamp>,
}

impl Default for TimeRange {
    fn default() -> (r: TimeRange)
        ensures
            r.since is None && r.until is None,
    {
        TimeRange { since: None, until: None }
    }
}

/// The range restricts anything.
pub open spec fn is_active_spec(range: TimeRange) -> bool {
    range.since is Some || range.until is Some
}

/// `t` lies within the range, both ends included.
pub open spec fn contains_spec(range: TimeRange, t: Timestamp) -> bool {
    (range.since matches Some(s) ==> !ts_lt(t, s)) && (range.until matches Some(u) ==> !ts_lt(
        u,
        t,
    ))
}

/// An optional timestamp is present and within the range.
pub open spec fn opt_in_range(range: TimeRange, t: Option<Timestamp>) -> bool {
    t matches Some(v) && contains_spec(range, v)
}

/// A record is kept by a range when the range is open on both ends or one of
/// its MACB timestamps lies within it.
pub open spec fn record_matches_spec(range: TimeRange, r: RecordView) -> bool {
    !is_active_spec(range) || opt_in_range(range, r.mtime) || opt_in_range(range, r.atime)
        || opt_in_range(range, r.ctime) || opt_in_range(range, r.btime)
}

/// The records a range keeps, in order.
pub open spec fn records_in_range(rs: Seq<RecordView>, range: TimeRange) -> Seq<RecordView>
    decreases rs.len(),
{
    if rs.len() == 0 {
        seq![]
    } else if record_matches_spec(range, rs.last()) {
        records_in_range(rs.drop_last(), range).push(rs.last())
    } else {
        records_in_range(rs.drop_last(), range)
    }
}

/// The events a range keeps, in order.
pub open spec fn events_in_range(es: Seq<EventView>, range: TimeRange) -> Seq<EventView>
    decreases es.len(),
{
    if es.len() == 0 {
        seq![]
    } else if !is_active_spec(range) || contains_spec(range, es.last().timestamp) {
        events_in_range(es.drop_last(), range).push(es.last())
    } else {
        events_in_range(es.drop_last(), range)
    }
}

impl TimeRange {
    /// Builds a range from optional `--since` and `--until` texts. Each is
    /// trimmed and read as RFC 3339, `YYYY-MM-DD` (start of day for `since`,
    /// last second of the day for `until`) or `YYYY-MM-DD HH:MM:SS` in UTC.
    pub fn parse(since: Option<&str>, until: Option<&str>) -> (r: Result<TimeRange, TimeRangeError>)
        ensures
            match (r, range_parse_spec(opt_str_view(since), opt_str_view(until))) {
                (Ok(range), Ok(p)) => opt_ts_pair(range.since) == p.0 && opt_ts_pair(range.until)
                    == p.1,
                (Err(e), Err(ev)) => e@ == ev,
                _ => false,
            },
            r matches Ok(range) ==> (range.since matches Some(s) ==> range.until matches Some(u)
                ==> !ts_lt(u, s)),
    {
        let since_ts = match since {
            Some(v) => match parse_time_bound(v, false) {
                Ok(t) => Some(t),
                Err(e) => {
                    return Err(e);
                },
            },
            None => None,
        };
        let until_ts = match until {
            Some(v) => match parse_time_bound(v, true) {
                Ok(t) => Some(t),
                Err(e) => {
                    return Err(e);
                },
            },
            None => None,
        };
        if let (Some(s), Some(u)) = (since_ts, until_ts) {
            if u.lt(&s) {
                return Err(TimeRangeError::SinceAfterUntil);
            }
        }
        Ok(TimeRange { since: since_ts, until: until_ts })
    }

    pub fn is_active(self) -> (r: bool)
        ensures
            r == is_active_spec(self),
    {
        self.since.is_some() || self.until.is_some()
    }

    /// `timestamp` is neither before `since` nor after `until`.
    pub fn contains(self, timestamp: Timestamp) -> (r: bool)
        ensures
            r == contains_spec(self, timestamp),
    {
        if let Some(since) = self.since {
            if timestamp.lt(&since) {
                return false;
            }
        }
        if let Some(until) = self.until {
            if until.lt(&timestamp) {
                return false;
            }
        }
        true
    }

    fn opt_contains(self, t: Option<Timestamp>) -> (r: bool)
        ensures
            r == opt_in_range(self, t),
    {
        match t {
            Some(v) => self.contains(v),
            None => false,
        }
    }

    /// Whether the range keeps a record.
    pub fn record_matches(self, record: &MacbRecord) -> (r: bool)
        ensures
            r == record_matches_spec(self, record@),
    {
        if !self.is_active() {
            return true;
        }
        self.opt_contains(record.mtime) || self.opt_contains(record.atime) || self.opt_contains(
            record.ctime,
        ) || self.opt_contains(record.btime)
    }
}

/// The records with a MACB timestamp in the range, in order; all of them when
/// the range is open on both ends.
pub fn filter_records_by_time(records: Vec<MacbRecord>, range: TimeRange) -> (r: Vec<MacbRecord>)
    ensures
        records_view(r@) == records_in_range(records_view(records@), range),
        !is_active_spec(range) ==> r@ == records@,
{
    if !range.is_active() {
        proof {
            lemma_inactive_keeps_records(records_view(records@), range);
        }
        return records;
    }
    let ghost input = records@;
    let mut out: Vec<MacbRecord> = Vec::new();
    let ghost mut k: int = 0;
    for rec in it: records.into_iter()
        invariant
            it.seq() == input,
            k == it.index(),
            records_view(out@) == records_in_range(records_view(input.take(k)), range),
    {
        proof {
            let t = records_view(input.take(k + 1));
            assert(t.drop_last() =~= records_view(input.take(k)));
            assert(t.last() == rec@);
        }
        if range.record_matches(&rec) {
            out.push(rec);
            assert(records_view(out@) =~= records_in_range(records_view(input.take(k)), range).push(
                records_view(input.take(k + 1)).last(),
            ));
        }
        proof {
            k = k + 1;
        }
    }
    assert(input.take(input.len() as int) =~= input);
    out
}

/// The events whose timestamp lies in the range, in order; all of them when
/// the range is open on both ends.
pub fn filter_timeline_by_time(events: Vec<TimelineEvent>, range: TimeRange) -> (r: Vec<
    TimelineEvent,
>)
    ensures
        events_view(r@) == events_in_range(events_view(events@), range),
        !is_active_spec(range) ==> r@ == events@,
{
    if !range.is_active() {
        proof {
            lemma_inactive_keeps_events(events_view(events@), range);
        }
        return events;
    }
    let ghost input = events@;
    let mut out: Vec<TimelineEvent> = Vec::new();
    let ghost mut k: int = 0;
    for e in it: events.into_iter()
        invariant
            it.seq() == input,
            k == it.index(),
            is_active_spec(range),
            events_view(out@) == events_in_range(events_view(input.take(k)), range),
    {
        proof {
            let t = events_view(input.take(k + 1));
            assert(t.drop_last() =~= events_view(input.take(k)));
            assert(t.last() == e@);
        }
        if range.contains(e.timestamp) {
            out.push(e);
            assert(events_view(out@) =~= events_in_range(events_view(input.take(k)), range).push(
                events_view(input.take(k + 1)).last(),
            ));
        }
        proof {
            k = k + 1;
        }
    }
    assert(input.take(input.len() as int) =~= input);
    out
}

/// A range open on both ends keeps every record.
pub proof fn lemma_inactive_keeps_records(rs: Seq<RecordView>, range: TimeRange)
    requires
        !is_active_spec(range),
    ensures
        records_in_range(rs, range) == rs,
    decreases rs.len(),
{
    if rs.len() > 0 {
        lemma_inactive_keeps_records(rs.drop_last(), range);
        assert(rs.drop_last().push(rs.last()) =~= rs);
    }
}

/// A range open on both ends keeps every event.
pub proof fn lemma_inactive_keeps_events(es: Seq<EventView>, range: TimeRange)
    requires
        !is_active_spec(range),
    ensures
        events_in_range(es, range) == es,
    decreases es.len(),
{
    if es.len() > 0 {
        lemma_inactive_keeps_events(es.drop_last(), range);
        assert(es.drop_last().push(es.last()) =~= es);
    }
}

} // verus!
