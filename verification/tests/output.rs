use macb_timeline::output::{
    bodyfile_line, bodyfile_path, csv_escape, format_anomalies, format_timestamp, records_bodyfile,
    records_csv, timeline_csv, OutputError, RecordsOutput, TimelineOutput,
};
use macb_timeline::{
    format_bodyfile_mode, render_records, render_timeline, Anomaly, AnomalyRule, MacbRecord,
    MacbType, OutputFormat, Severity, TimelineEvent, Timestamp,
};

fn ts(secs: i64) -> Timestamp {
    Timestamp::from_secs(secs).unwrap()
}

fn ymd_hms(y: i32, mo: u32, d: u32, h: u32, mi: u32, s: u32) -> Timestamp {
    let dt = chrono::NaiveDate::from_ymd_opt(y, mo, d)
        .unwrap()
        .and_hms_opt(h, mi, s)
        .unwrap()
        .and_utc();
    ts(dt.timestamp())
}

fn plain_record(path: &str) -> MacbRecord {
    MacbRecord {
        path: path.to_string(),
        inode: None,
        mtime: None,
        atime: None,
        ctime: None,
        btime: None,
        size: 0,
        mode: None,
        uid: None,
        gid: None,
        md5: None,
        sha256: None,
        deleted: false,
        is_dir: false,
        anomalies: Vec::new(),
    }
}

fn sample_record() -> MacbRecord {
    MacbRecord {
        path: "/tmp/example.txt".to_string(),
        inode: Some(42),
        mtime: Some(ymd_hms(2024, 3, 15, 14, 22, 1)),
        atime: Some(ymd_hms(2024, 3, 15, 14, 22, 1)),
        ctime: Some(ymd_hms(2024, 3, 15, 14, 22, 1)),
        btime: Some(ymd_hms(2024, 3, 14, 10, 0, 0)),
        size: 128,
        mode: None,
        uid: None,
        gid: None,
        md5: None,
        sha256: None,
        deleted: false,
        is_dir: false,
        anomalies: vec![Anomaly {
            rule: AnomalyRule::BtimeAfterMtime,
            severity: Severity::High,
            description: "test anomaly".to_string(),
            timestamps_involved: vec![MacbType::Born, MacbType::Modified],
        }],
    }
}

fn text_of(out: RecordsOutput) -> String {
    match out {
        RecordsOutput::Text(t) => t,
        _ => panic!("expected text output"),
    }
}

#[test]
fn writes_bodyfile_line() {
    let record = MacbRecord {
        path: "/etc/passwd".to_string(),
        inode: Some(1234),
        mtime: Some(ts(1_700_000_200)),
        atime: Some(ts(1_700_000_100)),
        ctime: Some(ts(1_700_000_300)),
        btime: None,
        size: 2048,
        mode: Some(0o100644),
        uid: Some(0),
        gid: Some(0),
        md5: None,
        sha256: None,
        deleted: false,
        is_dir: false,
        anomalies: Vec::new(),
    };

    let line = records_bodyfile(&[record]);
    assert!(line.starts_with("0|/etc/passwd|1234|-/rw-r--r--|0|0|2048|"));
}

#[test]
fn marks_deleted_paths() {
    let mut record = plain_record("/lost/file.txt");
    record.inode = Some(9);
    record.deleted = true;

    assert_eq!(bodyfile_path(&record), "*(deleted)*/lost/file.txt");
}

#[test]
fn writes_bodyfile_records() {
    let mut record = sample_record();
    record.mode = Some(0o100644);
    record.uid = Some(0);
    record.gid = Some(0);
    record.md5 = Some("abc123".to_string());
    record.anomalies = Vec::new();

    let output = text_of(render_records(&[record], OutputFormat::Bodyfile, Severity::Info));
    assert!(output.starts_with("abc123|/tmp/example.txt|42|-/rw-r--r--|"));
}

#[test]
fn writes_json_records() {
    let out = render_records(&[sample_record()], OutputFormat::Json, Severity::Info);
    match out {
        RecordsOutput::Json(records) => {
            assert!(records[0].path.contains("example.txt"));
            assert_eq!(records[0].anomalies[0].description, "test anomaly");
        }
        _ => panic!("expected json payload"),
    }
}

#[test]
fn writes_csv_timeline() {
    let event = TimelineEvent {
        timestamp: ymd_hms(2024, 3, 15, 14, 22, 1),
        event_type: MacbType::Modified,
        path: "/tmp/example.txt".to_string(),
        anomalies: Vec::new(),
    };

    let output = match render_timeline(&[event], OutputFormat::Csv, Severity::Info) {
        Ok(TimelineOutput::Text(t)) => t,
        _ => panic!("expected csv text"),
    };
    assert!(output.starts_with("timestamp,event_type,path,anomalies"));
    assert!(output.contains("/tmp/example.txt"));
}

#[test]
fn full_bodyfile_line_uses_zero_for_missing_values() {
    let mut record = plain_record("C:\\Users\\x.txt");
    record.btime = Some(ts(-1));
    assert_eq!(
        bodyfile_line(&record),
        "0|C:/Users/x.txt|0|-/rw-r--r--|0|0|0|0|0|0|-1"
    );
}

#[test]
fn bodyfile_modes_by_kind() {
    let mut dir = plain_record("/d");
    dir.is_dir = true;
    assert_eq!(format_bodyfile_mode(&dir), "d/rwxr-xr-x");
    let mut link = plain_record("/l");
    link.mode = Some(0o120777);
    assert_eq!(format_bodyfile_mode(&link), "l/rwxrwxrwx");
    let mut odd = plain_record("/o");
    odd.mode = Some(0o000640);
    odd.is_dir = true;
    assert_eq!(format_bodyfile_mode(&odd), "d/rw-r-----");
    let mut sock = plain_record("/s");
    sock.mode = Some(0o140755);
    assert_eq!(format_bodyfile_mode(&sock), "s/rwxr-xr-x");
}

#[test]
fn timestamps_render_in_utc_or_dash() {
    assert_eq!(format_timestamp(None), "-");
    assert_eq!(format_timestamp(Some(ts(1_700_000_000))), "2023-11-14 22:13:20 UTC");
}

#[test]
fn anomaly_text_keeps_severe_enough_entries() {
    let anomalies = vec![
        Anomaly {
            rule: AnomalyRule::AllTimestampsEqual,
            severity: Severity::Low,
            description: "equal".to_string(),
            timestamps_involved: vec![],
        },
        Anomaly {
            rule: AnomalyRule::BtimeAfterMtime,
            severity: Severity::High,
            description: "born late".to_string(),
            timestamps_involved: vec![],
        },
        Anomaly {
            rule: AnomalyRule::ZeroTimestamps,
            severity: Severity::Medium,
            description: "zero".to_string(),
            timestamps_involved: vec![],
        },
    ];
    assert_eq!(
        format_anomalies(&anomalies, Severity::Info),
        "[LOW] equal; [HIGH] born late; [MEDIUM] zero"
    );
    assert_eq!(
        format_anomalies(&anomalies, Severity::Medium),
        "[HIGH] born late; [MEDIUM] zero"
    );
    assert_eq!(format_anomalies(&anomalies, Severity::High), "[HIGH] born late");
    assert_eq!(format_anomalies(&Vec::new(), Severity::Info), "");
}

#[test]
fn csv_doubles_quotes() {
    assert_eq!(csv_escape("say \"hi\""), "say \"\"hi\"\"");
    assert_eq!(csv_escape("plain"), "plain");
}

#[test]
fn records_csv_has_header_and_one_line_per_record() {
    let mut record = sample_record();
    record.path = "/tmp/a\"b".to_string();
    record.mtime = None;
    let csv = records_csv(&[record], Severity::Info);
    assert_eq!(
        csv,
        "path,inode,mtime,atime,ctime,btime,size,anomalies\n/tmp/a\"\"b,42,-,2024-03-15 14:22:01 UTC,2024-03-15 14:22:01 UTC,2024-03-14 10:00:00 UTC,128,\"[HIGH] test anomaly\"\n"
    );
}

#[test]
fn timeline_csv_lines() {
    let event = TimelineEvent {
        timestamp: ts(1_700_000_000),
        event_type: MacbType::Born,
        path: "/x".to_string(),
        anomalies: vec![Anomaly {
            rule: AnomalyRule::ZeroTimestamps,
            severity: Severity::Medium,
            description: "a \"q\"".to_string(),
            timestamps_involved: vec![],
        }],
    };
    assert_eq!(
        timeline_csv(&[event], Severity::Info),
        "timestamp,event_type,path,anomalies\n2023-11-14 22:13:20 UTC,B,/x,\"[MEDIUM] a \"\"q\"\"\"\n"
    );
}

#[test]
fn table_rows_hold_rendered_cells() {
    let out = render_records(&[sample_record()], OutputFormat::Table, Severity::High);
    match out {
        RecordsOutput::Table(rows) => {
            assert_eq!(rows[0].path, "/tmp/example.txt");
            assert_eq!(rows[0].inode, "42");
            assert_eq!(rows[0].btime, "2024-03-14 10:00:00 UTC");
            assert_eq!(rows[0].size, "128");
            assert_eq!(rows[0].anomalies, "[HIGH] test anomaly");
        }
        _ => panic!("expected table rows"),
    }
}

#[test]
fn json_payload_drops_anomalies_below_minimum() {
    let out = render_records(&[sample_record()], OutputFormat::Json, Severity::High);
    match out {
        RecordsOutput::Json(records) => assert_eq!(records[0].anomalies.len(), 1),
        _ => panic!("expected json payload"),
    }
    let mut record = sample_record();
    record.anomalies[0].severity = Severity::Low;
    match render_records(&[record], OutputFormat::Json, Severity::Medium) {
        RecordsOutput::Json(records) => assert!(records[0].anomalies.is_empty()),
        _ => panic!("expected json payload"),
    }
}

#[test]
fn timeline_refuses_bodyfile() {
    let err = match render_timeline(&[], OutputFormat::Bodyfile, Severity::Info) {
        Err(e) => e,
        Ok(_) => panic!("bodyfile timeline must be refused"),
    };
    assert_eq!(err, OutputError::BodyfileTimeline);
    assert_eq!(err.message(), "bodyfile output is only supported for the scan command");
}
