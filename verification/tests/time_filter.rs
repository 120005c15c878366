use macb_timeline::time_filter::{parse_time_bound, select_time_bound, TimeRangeError};
use macb_timeline::{
    filter_records_by_time, filter_timeline_by_time, MacbRecord, MacbType, TimeRange,
    TimelineEvent, Timestamp,
};

fn ts(secs: i64) -> Timestamp {
    Timestamp::from_secs(secs).unwrap()
}

fn record(mtime: i64, atime: i64) -> MacbRecord {
    MacbRecord {
        path: "/tmp/file".to_string(),
        inode: Some(1),
        mtime: Some(ts(mtime)),
        atime: Some(ts(atime)),
        ctime: None,
        btime: None,
        size: 1,
        mode: None,
        uid: None,
        gid: None,
        md5: None,
        sha256: None,
        deleted: false,
        is_dir: false,
        anomalies: Vec::new(),
    }
}

fn rfc3339(t: Timestamp) -> String {
    chrono::DateTime::from_timestamp(t.secs(), t.nanos())
        .unwrap()
        .to_rfc3339()
}

#[test]
fn parses_rfc3339_bound() {
    let parsed = parse_time_bound("2024-01-15T10:30:00Z", false).unwrap();
    assert_eq!(rfc3339(parsed), "2024-01-15T10:30:00+00:00");
}

#[test]
fn parses_date_only_bounds() {
    let since = parse_time_bound("2024-01-15", false).unwrap();
    let until = parse_time_bound("2024-01-15", true).unwrap();
    assert!(since.lt(&until));
    let midpoint = ts(since.secs() + 12 * 3600);
    assert!(TimeRange {
        since: Some(since),
        until: Some(until),
    }
    .contains(midpoint));
}

#[test]
fn filters_records_with_any_macb_in_range() {
    let range = TimeRange {
        since: Some(ts(200)),
        until: Some(ts(300)),
    };
    let in_range = record(100, 250);
    let out_of_range = record(100, 50);

    let filtered = filter_records_by_time(vec![in_range, out_of_range], range);
    assert_eq!(filtered.len(), 1);
    assert_eq!(filtered[0].atime, Some(ts(250)));
}

#[test]
fn filters_timeline_events_by_event_time() {
    let range = TimeRange {
        since: Some(ts(200)),
        until: Some(ts(250)),
    };
    let events = vec![
        TimelineEvent {
            timestamp: ts(100),
            event_type: MacbType::Modified,
            path: "/tmp/a".to_string(),
            anomalies: Vec::new(),
        },
        TimelineEvent {
            timestamp: ts(220),
            event_type: MacbType::Accessed,
            path: "/tmp/a".to_string(),
            anomalies: Vec::new(),
        },
    ];

    let filtered = filter_timeline_by_time(events, range);
    assert_eq!(filtered.len(), 1);
    assert_eq!(filtered[0].timestamp, ts(220));
}

#[test]
fn rejects_since_after_until() {
    let err = TimeRange::parse(Some("2024-02-01"), Some("2024-01-01")).unwrap_err();
    assert!(err.message().contains("since"));
}

#[test]
fn date_only_bounds_cover_the_whole_day() {
    let since = parse_time_bound("2024-01-15", false).unwrap();
    let until = parse_time_bound("2024-01-15", true).unwrap();
    assert_eq!(rfc3339(since), "2024-01-15T00:00:00+00:00");
    assert_eq!(rfc3339(until), "2024-01-15T23:59:59+00:00");
}

#[test]
fn bounds_are_trimmed_and_accept_date_time_form() {
    let parsed = parse_time_bound("  2024-01-15 10:30:00\n", false).unwrap();
    assert_eq!(rfc3339(parsed), "2024-01-15T10:30:00+00:00");
}

#[test]
fn rfc3339_offsets_are_converted_to_utc() {
    let parsed = parse_time_bound("2024-01-15T12:30:00+02:00", false).unwrap();
    assert_eq!(rfc3339(parsed), "2024-01-15T10:30:00+00:00");
}

#[test]
fn empty_and_invalid_bounds_are_rejected() {
    let empty = parse_time_bound("   ", false).unwrap_err();
    assert!(matches!(empty, TimeRangeError::EmptyValue));
    assert_eq!(empty.message(), "time value cannot be empty");
    let bad = parse_time_bound(" yesterday ", true).unwrap_err();
    assert_eq!(
        bad.message(),
        "invalid time 'yesterday': use RFC 3339 (e.g. 2024-01-15T10:30:00Z) or YYYY-MM-DD"
    );
}

#[test]
fn since_error_comes_before_until_error() {
    let err = TimeRange::parse(Some(""), Some("nope")).unwrap_err();
    assert!(matches!(err, TimeRangeError::EmptyValue));
}

#[test]
fn open_range_keeps_everything() {
    let range = TimeRange::parse(None, None).unwrap();
    assert!(!range.is_active());
    let kept = filter_records_by_time(vec![record(1, 2), record(3, 4)], range);
    assert_eq!(kept.len(), 2);
    assert!(range.record_matches(&record(5, 6)));
}

#[test]
fn range_bounds_are_inclusive() {
    let range = TimeRange {
        since: Some(ts(200)),
        until: Some(ts(300)),
    };
    assert!(range.contains(ts(200)));
    assert!(range.contains(ts(300)));
    assert!(!range.contains(ts(199)));
    assert!(!range.contains(ts(301)));
    let half = TimeRange {
        since: None,
        until: Some(ts(300)),
    };
    assert!(half.contains(ts(-5)));
}

#[test]
fn equal_bounds_are_accepted() {
    let range = TimeRange::parse(Some("2024-01-15T00:00:00Z"), Some("2024-01-15T00:00:00Z")).unwrap();
    assert!(range.contains(range.since.unwrap()));
}

#[test]
fn bound_readings_are_tried_in_order() {
    let rfc = select_time_bound("x".to_string(), Some((10, 5)), Some(Some(20)), Some((30, 0))).unwrap();
    assert_eq!((rfc.secs(), rfc.nanos()), (10, 5));
    let day = select_time_bound("x".to_string(), None, Some(Some(20)), Some((30, 0))).unwrap();
    assert_eq!(day.secs(), 20);
    let bad_day = select_time_bound("x".to_string(), None, Some(None), Some((30, 0))).unwrap_err();
    assert_eq!(bad_day.message(), "invalid date components");
    let dt = select_time_bound("x".to_string(), None, None, Some((30, 0))).unwrap();
    assert_eq!(dt.secs(), 30);
    let none = select_time_bound("soon".to_string(), None, None, None).unwrap_err();
    assert!(matches!(none, TimeRangeError::InvalidTime(ref t) if t == "soon"));
}
