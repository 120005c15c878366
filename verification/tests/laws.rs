use macb_timeline::anomalies::detect_anomalies_at;
use macb_timeline::{filter_records, filter_timeline, Anomaly, Severity};
use macb_timeline::time_filter::TimeRange;
use macb_timeline::tsk::{detect_ntfs_attr_mismatch, timestamps_differ, TskMetaTimes, TSK_FS_TYPE_NTFS};
use macb_timeline::{
    build_timeline, filter_records_by_time, filter_timeline_by_time, sort_records, sort_timeline,
    AnomalyRule, HashAlgorithm, MacbRecord, MacbType, SortField, Timestamp,
};

fn ts(secs: i64) -> Timestamp {
    Timestamp::from_secs(secs).unwrap()
}

fn record(path: &str, m: Option<i64>, a: Option<i64>, c: Option<i64>, b: Option<i64>) -> MacbRecord {
    MacbRecord {
        path: path.to_string(),
        inode: None,
        mtime: m.map(ts),
        atime: a.map(ts),
        ctime: c.map(ts),
        btime: b.map(ts),
        size: 0,
        mode: None,
        uid: None,
        gid: None,
        md5: None,
        sha256: None,
        deleted: false,
        is_dir: false,
        anomalies: Vec::new(),
    }
}

#[test]
fn timeline_has_one_event_per_present_timestamp() {
    let records = vec![
        record("/a", Some(1), None, Some(3), None),
        record("/b", None, None, None, None),
        record("/c", Some(1), Some(2), Some(3), Some(4)),
    ];
    assert_eq!(build_timeline(&records).len(), 6);
}

#[test]
fn record_kept_by_time_exactly_when_one_of_its_events_is() {
    let range = TimeRange { since: Some(ts(100)), until: Some(ts(200)) };
    let records = vec![
        record("/in", Some(50), None, Some(150), None),
        record("/out", Some(50), Some(250), None, Some(99)),
    ];
    let kept = filter_records_by_time(records.clone(), range);
    for r in &records {
        let events = filter_timeline_by_time(build_timeline(std::slice::from_ref(r)), range);
        let record_kept = kept.iter().any(|k| k.path == r.path);
        assert_eq!(record_kept, !events.is_empty());
    }
}

#[test]
fn timestamp_and_kind_sorts_are_chronological() {
    let records = vec![
        record("/a", Some(30), Some(10), Some(20), None),
        record("/b", Some(5), Some(40), None, Some(1)),
    ];
    for sort in [SortField::Timestamp, SortField::Mtime, SortField::Atime] {
        let mut events = build_timeline(&records);
        sort_timeline(&mut events, sort);
        assert!(events.windows(2).all(|w| w[0].timestamp.le(&w[1].timestamp)));
    }
}

#[test]
fn ctime_sort_keeps_only_change_events() {
    let records = vec![record("/a", Some(30), Some(10), Some(20), None)];
    let mut events = build_timeline(&records);
    sort_timeline(&mut events, SortField::Ctime);
    assert_eq!(events.len(), 1);
    assert_eq!(events[0].event_type, MacbType::Changed);
}

#[test]
fn scan_sorted_by_latest_timestamp_puts_missing_last() {
    let mut records = vec![
        record("/none", None, None, None, None),
        record("/late", Some(10), Some(90), None, None),
        record("/early", Some(50), None, None, None),
    ];
    sort_records(&mut records, SortField::Timestamp);
    let paths: Vec<&str> = records.iter().map(|r| r.path.as_str()).collect();
    assert_eq!(paths, vec!["/early", "/late", "/none"]);
}

#[test]
fn missing_btime_never_raises_birth_rules() {
    let r = record("/x", Some(100), Some(0), Some(50), None);
    let found = detect_anomalies_at(&r, 10, 0);
    assert!(found.iter().all(|a| a.rule != AnomalyRule::BtimeAfterMtime
        && a.rule != AnomalyRule::BtimeAfterAtime
        && a.rule != AnomalyRule::BtimeInFuture));
}

#[test]
fn one_second_jitter_is_not_ctime_before_mtime() {
    let r = record("/x", Some(101), None, Some(100), None);
    let found = detect_anomalies_at(&r, 1_000, 0);
    assert!(found.iter().all(|a| a.rule != AnomalyRule::CtimeBeforeMtime));
}

#[test]
fn ntfs_one_second_jitter_is_ignored_and_order_does_not_matter() {
    let si = TskMetaTimes { crtime: 10, atime: 20, mtime: 30, ctime: 40 };
    let fname = TskMetaTimes { crtime: 11, atime: 19, mtime: 30, ctime: 41 };
    assert!(detect_ntfs_attr_mismatch(TSK_FS_TYPE_NTFS, Some((si, fname))).is_none());
    assert_eq!(timestamps_differ(10, 500), timestamps_differ(500, 10));
}

#[test]
fn hash_names_ignore_case() {
    for name in ["sha-256", "SHA-256", "Sha-256"] {
        assert_eq!(HashAlgorithm::parse(name).unwrap(), HashAlgorithm::Sha256);
    }
}

#[test]
fn anomaly_filter_keeps_events_of_kept_records() {
    let mut flagged = record("/bad", Some(10), Some(20), None, None);
    flagged.anomalies = vec![Anomaly {
        rule: AnomalyRule::ZeroTimestamps,
        severity: Severity::Medium,
        description: "z".to_string(),
        timestamps_involved: vec![],
    }];
    let clean = record("/good", Some(10), None, None, None);
    let records = vec![flagged, clean];
    let kept_records = filter_records(records.clone(), true, Severity::Low);
    let kept_events = filter_timeline(build_timeline(&records), true, Severity::Low);
    assert_eq!(kept_records.len(), 1);
    assert_eq!(kept_events.len(), 2);
    assert!(kept_events.iter().all(|e| e.path == "/bad" && e.anomalies.len() == 1));
}

#[test]
fn one_second_birth_jitter_is_not_flagged() {
    let r = record("/x", Some(100), Some(100), None, Some(101));
    let found = detect_anomalies_at(&r, 1_000, 0);
    assert!(found.iter().all(|a| a.rule != AnomalyRule::BtimeAfterMtime
        && a.rule != AnomalyRule::BtimeAfterAtime));
}

#[test]
fn detected_rules_come_once_each_in_rule_order_with_fixed_severity() {
    let r = record("/x", Some(0), Some(0), Some(0), Some(500));
    let found = detect_anomalies_at(&r, 100, 0);
    let got: Vec<(AnomalyRule, Severity)> = found.iter().map(|a| (a.rule, a.severity)).collect();
    assert_eq!(
        got,
        vec![
            (AnomalyRule::BtimeAfterMtime, Severity::High),
            (AnomalyRule::BtimeAfterAtime, Severity::Medium),
            (AnomalyRule::BtimeInFuture, Severity::High),
            (AnomalyRule::ZeroTimestamps, Severity::Medium),
        ]
    );
}
