use macb_timeline::anomalies::{detect_anomalies_at, merge_anomalies};
use macb_timeline::{annotate_records, detect_anomalies};
use macb_timeline::{Anomaly, AnomalyRule, MacbRecord, MacbType, Severity, Timestamp};

fn ts(secs: i64) -> Timestamp {
    Timestamp::from_secs(secs).unwrap()
}

fn base_record() -> MacbRecord {
    MacbRecord {
        path: "/tmp/test".to_string(),
        inode: Some(1),
        mtime: Some(ts(1_700_000_000)),
        atime: Some(ts(1_700_000_100)),
        ctime: Some(ts(1_700_000_200)),
        btime: Some(ts(1_699_999_900)),
        size: 42,
        mode: None,
        uid: None,
        gid: None,
        md5: None,
        sha256: None,
        deleted: false,
        is_dir: false,
        anomalies: Vec::new(),
    }
}

fn has(anomalies: &[Anomaly], rule: AnomalyRule) -> bool {
    anomalies.iter().any(|a| a.rule == rule)
}

#[test]
fn detects_btime_after_mtime() {
    let mut record = base_record();
    record.btime = Some(ts(1_700_000_500));
    record.mtime = Some(ts(1_700_000_000));

    let anomalies = detect_anomalies(&record);
    assert!(has(&anomalies, AnomalyRule::BtimeAfterMtime));
}

#[test]
fn detects_future_mtime() {
    let mut record = base_record();
    let tomorrow = chrono::Utc::now().timestamp() + 86_400;
    record.mtime = Some(ts(tomorrow));

    let anomalies = detect_anomalies(&record);
    assert!(has(&anomalies, AnomalyRule::MtimeInFuture));
}

#[test]
fn detects_equal_timestamps() {
    let mut record = base_record();
    let same = ts(1_700_000_000);
    record.mtime = Some(same);
    record.atime = Some(same);
    record.ctime = Some(same);
    record.btime = Some(same);

    let anomalies = detect_anomalies(&record);
    assert!(has(&anomalies, AnomalyRule::AllTimestampsEqual));
}

#[test]
fn detects_ctime_before_mtime() {
    let mut record = base_record();
    record.ctime = Some(ts(1_699_999_000));
    record.mtime = Some(ts(1_700_000_000));

    let anomalies = detect_anomalies(&record);
    assert!(has(&anomalies, AnomalyRule::CtimeBeforeMtime));
}

#[test]
fn detects_zero_timestamps() {
    let mut record = base_record();
    record.mtime = Some(ts(0));

    let anomalies = detect_anomalies(&record);
    assert!(has(&anomalies, AnomalyRule::ZeroTimestamps));
}

#[test]
fn ignores_one_second_ctime_jitter() {
    let mut record = base_record();
    record.mtime = Some(ts(1_700_000_001));
    record.ctime = Some(ts(1_700_000_000));

    let anomalies = detect_anomalies(&record);
    assert!(!has(&anomalies, AnomalyRule::CtimeBeforeMtime));
}

#[test]
fn missing_btime_is_not_an_anomaly() {
    let mut record = base_record();
    record.btime = None;

    let anomalies = detect_anomalies(&record);
    assert!(anomalies.is_empty());
}

#[test]
fn annotate_records_preserves_scanner_anomalies() {
    let mut record = base_record();
    record.btime = Some(ts(1_700_000_500));
    record.mtime = Some(ts(1_700_000_000));
    record.anomalies = vec![Anomaly {
        rule: AnomalyRule::NtfsSiFnMismatch,
        severity: Severity::High,
        description: "NTFS SI/FN mismatch from scanner".to_string(),
        timestamps_involved: vec![MacbType::Modified],
    }];

    let annotated = annotate_records(vec![record]);
    let rules: Vec<AnomalyRule> = annotated[0].anomalies.iter().map(|a| a.rule).collect();

    assert!(rules.contains(&AnomalyRule::NtfsSiFnMismatch));
    assert!(rules.contains(&AnomalyRule::BtimeAfterMtime));
}

#[test]
fn annotate_records_dedupes_same_rule() {
    let mut record = base_record();
    record.anomalies = vec![Anomaly {
        rule: AnomalyRule::BtimeAfterMtime,
        severity: Severity::High,
        description: "scanner copy".to_string(),
        timestamps_involved: vec![MacbType::Born, MacbType::Modified],
    }];
    record.btime = Some(ts(1_700_000_500));
    record.mtime = Some(ts(1_700_000_000));

    let annotated = annotate_records(vec![record]);
    let count = annotated[0]
        .anomalies
        .iter()
        .filter(|a| a.rule == AnomalyRule::BtimeAfterMtime)
        .count();

    assert_eq!(count, 1);
    assert_eq!(annotated[0].anomalies[0].description, "scanner copy");
}

#[test]
fn btime_after_mtime_description_shows_both_times() {
    let mut record = base_record();
    record.btime = Some(ts(1_700_000_500));
    record.mtime = Some(ts(1_700_000_000));
    let anomalies = detect_anomalies_at(&record, 1_800_000_000, 0);
    let found = anomalies
        .iter()
        .find(|a| a.rule == AnomalyRule::BtimeAfterMtime)
        .unwrap();
    assert_eq!(found.severity, Severity::High);
    assert_eq!(
        found.description,
        "Birth time (2023-11-14 22:21:40 UTC) is after modification time (2023-11-14 22:13:20 UTC)"
    );
    assert_eq!(found.timestamps_involved, vec![MacbType::Born, MacbType::Modified]);
}

#[test]
fn future_is_judged_against_the_given_instant() {
    let record = base_record();
    let before = detect_anomalies_at(&record, 1_699_999_999, 0);
    assert!(has(&before, AnomalyRule::MtimeInFuture));
    let after = detect_anomalies_at(&record, 1_700_000_000, 0);
    assert!(!has(&after, AnomalyRule::MtimeInFuture));
}

#[test]
fn btime_two_seconds_after_atime_is_flagged() {
    let mut record = base_record();
    record.atime = Some(ts(1_700_000_000));
    record.btime = Some(ts(1_700_000_002));
    record.mtime = Some(ts(1_700_000_010));
    let anomalies = detect_anomalies_at(&record, 1_800_000_000, 0);
    assert!(has(&anomalies, AnomalyRule::BtimeAfterAtime));
    record.btime = Some(ts(1_700_000_001));
    let anomalies = detect_anomalies_at(&record, 1_800_000_000, 0);
    assert!(!has(&anomalies, AnomalyRule::BtimeAfterAtime));
}

#[test]
fn merge_keeps_scanner_findings_first() {
    let existing = vec![Anomaly {
        rule: AnomalyRule::NtfsSiFnMismatch,
        severity: Severity::High,
        description: "from scanner".to_string(),
        timestamps_involved: vec![],
    }];
    let detected = vec![
        Anomaly {
            rule: AnomalyRule::ZeroTimestamps,
            severity: Severity::Medium,
            description: "zero".to_string(),
            timestamps_involved: vec![],
        },
        Anomaly {
            rule: AnomalyRule::NtfsSiFnMismatch,
            severity: Severity::High,
            description: "again".to_string(),
            timestamps_involved: vec![],
        },
    ];
    let merged = merge_anomalies(existing, detected);
    assert_eq!(merged.len(), 2);
    assert_eq!(merged[0].description, "from scanner");
    assert_eq!(merged[1].rule, AnomalyRule::ZeroTimestamps);
}
