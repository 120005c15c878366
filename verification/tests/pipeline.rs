use macb_timeline::pipeline::{
    parse_hash_option, plan_scan, plan_timeline, process_scan_records, process_timeline_events,
    resolve_scan_path, scan_requires_existing_path, timeline_requires_existing_path, SetupError,
};
use macb_timeline::{
    CliOutputFormat, CliSeverity, CliSortField, HashAlgorithm, MacbRecord, MacbType,
    OutputFormat, ScanArgs, Severity, SortField, TimelineArgs, Timestamp,
};

fn scan_args() -> ScanArgs {
    ScanArgs {
        path: Some("/var/log".to_string()),
        recursive: true,
        follow_symlinks: false,
        output: CliOutputFormat::Table,
        sort: CliSortField::Mtime,
        anomalies_only: false,
        min_severity: CliSeverity::Info,
        jobs: 0,
        max_depth: None,
        includes: Vec::new(),
        excludes: Vec::new(),
        quiet: true,
        output_file: None,
        since: None,
        until: None,
        hash: None,
    }
}

fn timeline_args() -> TimelineArgs {
    TimelineArgs {
        path: Some("/etc".to_string()),
        recursive: false,
        follow_symlinks: false,
        format: CliOutputFormat::Csv,
        sort: CliSortField::Timestamp,
        anomalies_only: false,
        min_severity: CliSeverity::High,
        jobs: 2,
        max_depth: None,
        includes: Vec::new(),
        excludes: Vec::new(),
        quiet: false,
        output_file: Some("out.csv".to_string()),
        since: Some("2024-01-01".to_string()),
        until: None,
        hash: Some("SHA256".to_string()),
    }
}

fn record(path: &str, mtime: i64, atime: i64) -> MacbRecord {
    MacbRecord {
        path: path.to_string(),
        inode: Some(1),
        mtime: Timestamp::from_secs(mtime),
        atime: Timestamp::from_secs(atime),
        ctime: None,
        btime: None,
        size: 1,
        mode: None,
        uid: None,
        gid: None,
        md5: None,
        sha256: None,
        deleted: false,
        is_dir: false,
        anomalies: Vec::new(),
    }
}

#[test]
fn scan_plan_carries_the_options() {
    let plan = plan_scan(scan_args()).unwrap();
    assert_eq!(plan.target_path, "/var/log");
    assert!(plan.require_exists);
    assert_eq!(plan.sort, SortField::Mtime);
    assert_eq!(plan.format, OutputFormat::Table);
    assert_eq!(plan.min_severity, Severity::Info);
    assert_eq!(plan.options.max_depth, None);
    assert!(!plan.time_range.is_active());
}

#[test]
fn timeline_plan_carries_the_options() {
    let plan = plan_timeline(timeline_args()).unwrap();
    assert_eq!(plan.options.max_depth, Some(1));
    assert_eq!(plan.options.hash, Some(HashAlgorithm::Sha256));
    assert_eq!(plan.format, OutputFormat::Csv);
    assert_eq!(plan.min_severity, Severity::High);
    assert_eq!(plan.jobs, 2);
    assert_eq!(plan.output_file.as_deref(), Some("out.csv"));
    assert!(plan.time_range.since.is_some() && plan.time_range.until.is_none());
}

#[test]
fn setup_errors_come_in_order() {
    let mut args = scan_args();
    args.hash = Some("crc".to_string());
    args.since = Some("bad".to_string());
    assert!(matches!(plan_scan(args), Err(SetupError::Hash(_))));

    let mut args = scan_args();
    args.since = Some("bad".to_string());
    args.excludes = vec!["[".to_string()];
    assert!(matches!(plan_scan(args), Err(SetupError::Time(_))));

    let mut args = scan_args();
    args.excludes = vec!["[".to_string()];
    args.path = None;
    assert!(matches!(plan_scan(args), Err(SetupError::Glob(_))));

    let mut args = scan_args();
    args.path = None;
    let err = plan_scan(args).unwrap_err();
    assert_eq!(err.message(), "a scan path is required for live filesystem scans");
}

#[test]
fn hash_option_is_optional() {
    assert_eq!(parse_hash_option(None).unwrap(), None);
    assert_eq!(parse_hash_option(Some("Md5")).unwrap(), Some(HashAlgorithm::Md5));
    assert!(parse_hash_option(Some("sha512")).is_err());
}

#[test]
fn scan_report_filters_then_sorts() {
    let mut args = scan_args();
    args.since = Some("1970-01-01T00:03:20Z".to_string());
    args.sort = CliSortField::Path;
    let plan = plan_scan(args).unwrap();
    let records = vec![record("/b", 300, 10), record("/a", 250, 10), record("/c", 100, 50)];
    let out = process_scan_records(records, &plan);
    let paths: Vec<&str> = out.iter().map(|r| r.path.as_str()).collect();
    assert_eq!(paths, vec!["/a", "/b"]);
}

#[test]
fn timeline_report_filters_then_sorts() {
    let mut args = timeline_args();
    args.since = Some("1970-01-01T00:01:40Z".to_string());
    args.sort = CliSortField::Atime;
    let plan = plan_timeline(args).unwrap();
    let records = vec![record("/b", 300, 200), record("/a", 250, 150), record("/c", 100, 50)];
    let events = process_timeline_events(&records, &plan);
    assert!(events.iter().all(|e| e.event_type == MacbType::Accessed));
    let got: Vec<(&str, i64)> = events.iter().map(|e| (e.path.as_str(), e.timestamp.secs())).collect();
    assert_eq!(got, vec![("/a", 150), ("/b", 200)]);
}

#[test]
fn live_runs_require_an_existing_path() {
    assert!(scan_requires_existing_path(&Some("/x".to_string())));
    assert!(timeline_requires_existing_path(&None));
    assert_eq!(resolve_scan_path(Some("/x".to_string())).unwrap(), "/x");
    assert!(matches!(resolve_scan_path(None), Err(SetupError::MissingPath)));
}
