use macb_timeline::{
    build_timeline, detect_anomalies, filter_records, filter_timeline, sort_records, sort_timeline,
};
use macb_timeline::{Anomaly, AnomalyRule, MacbRecord, MacbType, Severity, SortField, Timestamp};

fn ts(secs: i64) -> Timestamp {
    Timestamp::from_secs(secs).unwrap()
}

fn record(path: &str, mtime: i64, btime: Option<i64>) -> MacbRecord {
    let mut record = MacbRecord {
        path: path.to_string(),
        inode: Some(1),
        mtime: Some(ts(mtime)),
        atime: Some(ts(mtime)),
        ctime: Some(ts(mtime)),
        btime: btime.map(ts),
        size: 1,
        mode: None,
        uid: None,
        gid: None,
        md5: None,
        sha256: None,
        deleted: false,
        is_dir: false,
        anomalies: Vec::new(),
    };
    record.anomalies = detect_anomalies(&record);
    record
}

fn record_with_times(path: &str, mtime: i64, atime: i64) -> MacbRecord {
    MacbRecord {
        path: path.to_string(),
        inode: Some(1),
        mtime: Some(ts(mtime)),
        atime: Some(ts(atime)),
        ctime: None,
        btime: None,
        size: 1,
        mode: None,
        uid: None,
        gid: None,
        md5: None,
        sha256: None,
        deleted: false,
        is_dir: false,
        anomalies: Vec::new(),
    }
}

#[test]
fn flattens_macb_into_events() {
    let records = vec![record("/tmp/a", 100, Some(90))];
    let events = build_timeline(&records);
    assert_eq!(events.len(), 4);
}

#[test]
fn filters_anomalies_only() {
    let mut suspicious = record("/tmp/bad", 100, Some(200));
    suspicious.anomalies = vec![Anomaly {
        rule: AnomalyRule::BtimeAfterMtime,
        severity: Severity::High,
        description: "test".to_string(),
        timestamps_involved: vec![MacbType::Born, MacbType::Modified],
    }];
    let clean = record("/tmp/good", 100, Some(90));

    let filtered = filter_records(vec![suspicious, clean], true, Severity::High);
    assert_eq!(filtered.len(), 1);
    assert_eq!(filtered[0].path, "/tmp/bad");
}

#[test]
fn timeline_keeps_clean_events_unless_anomalies_only() {
    let records = vec![record("/tmp/good", 100, Some(90))];
    let events = build_timeline(&records);
    let filtered = filter_timeline(events.clone(), false, Severity::High);
    assert_eq!(filtered.len(), events.len());
}

#[test]
fn timeline_sorts_chronologically() {
    let records = vec![record("/tmp/a", 200, Some(100))];
    let mut events = build_timeline(&records);
    sort_timeline(&mut events, SortField::Timestamp);
    assert!(events
        .windows(2)
        .all(|window| window[0].timestamp.le(&window[1].timestamp)));
}

#[test]
fn timeline_sort_mtime_keeps_only_modified_events() {
    let records = vec![record("/tmp/a", 200, Some(100))];
    let mut events = build_timeline(&records);
    sort_timeline(&mut events, SortField::Mtime);
    assert!(events.iter().all(|event| event.event_type == MacbType::Modified));
    assert_eq!(events.len(), 1);
}

#[test]
fn scan_sort_timestamp_uses_latest_macb() {
    let mut records = vec![
        record_with_times("/tmp/old-mtime-new-atime", 100, 500),
        record_with_times("/tmp/new-mtime-old-atime", 400, 200),
    ];
    sort_records(&mut records, SortField::Timestamp);

    assert_eq!(records[0].path, "/tmp/new-mtime-old-atime");
    assert_eq!(records[1].path, "/tmp/old-mtime-new-atime");
}

#[test]
fn events_come_in_m_a_c_b_order_per_record() {
    let records = vec![record_with_times("/a", 10, 20), record("/b", 30, Some(5))];
    let events = build_timeline(&records);
    let kinds: Vec<MacbType> = events.iter().map(|e| e.event_type).collect();
    assert_eq!(
        kinds,
        vec![
            MacbType::Modified,
            MacbType::Accessed,
            MacbType::Modified,
            MacbType::Accessed,
            MacbType::Changed,
            MacbType::Born,
        ]
    );
    assert_eq!(events[0].path, "/a");
    assert_eq!(events[5].timestamp.secs(), 5);
}

#[test]
fn path_sort_orders_by_path_then_time_then_label() {
    let records = vec![record_with_times("/z", 10, 10), record_with_times("/a", 30, 20)];
    let mut events = build_timeline(&records);
    sort_timeline(&mut events, SortField::Path);
    let got: Vec<(String, i64, MacbType)> = events
        .iter()
        .map(|e| (e.path.clone(), e.timestamp.secs(), e.event_type))
        .collect();
    assert_eq!(
        got,
        vec![
            ("/a".to_string(), 20, MacbType::Accessed),
            ("/a".to_string(), 30, MacbType::Modified),
            ("/z".to_string(), 10, MacbType::Accessed),
            ("/z".to_string(), 10, MacbType::Modified),
        ]
    );
}

#[test]
fn records_missing_the_sort_time_come_last() {
    let mut with_b = record_with_times("/b", 10, 10);
    with_b.btime = Some(ts(50));
    let without = record_with_times("/a", 10, 10);
    let mut records = vec![without, with_b];
    sort_records(&mut records, SortField::Btime);
    assert_eq!(records[0].path, "/b");
    assert_eq!(records[1].path, "/a");
}

#[test]
fn sorting_is_stable_for_equal_keys() {
    let first = record_with_times("/same", 10, 10);
    let mut second = record_with_times("/same", 10, 10);
    second.size = 2;
    let mut records = vec![first, second];
    sort_records(&mut records, SortField::Path);
    assert_eq!(records[0].size, 1);
    assert_eq!(records[1].size, 2);
}

#[test]
fn anomalies_only_filter_respects_min_severity() {
    let mut low = record_with_times("/low", 10, 10);
    low.anomalies = vec![Anomaly {
        rule: AnomalyRule::AllTimestampsEqual,
        severity: Severity::Low,
        description: "equal".to_string(),
        timestamps_involved: vec![],
    }];
    let kept = filter_records(vec![low], true, Severity::Medium);
    assert!(kept.is_empty());
}
