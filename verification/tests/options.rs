use macb_timeline::paths::{path_depth, path_within_depth};
use macb_timeline::scanner::{
    accept_walk_entry, check_scan_target, compile_pattern, compile_patterns,
    path_matches_filters, record_from_metadata, record_from_statx, resolve_jobs, walk_max_depth,
    MetadataInfo, StatxInfo,
};
use macb_timeline::{ScanError, ScanOptions};

#[test]
fn exclude_filters_matching_paths() {
    let excludes = compile_patterns(&["*.log".to_string()]).unwrap();
    assert!(!path_matches_filters("/var/log/syslog.log", &[], &excludes));
    assert!(path_matches_filters("/var/log/syslog", &[], &excludes));
}

#[test]
fn include_requires_match_when_set() {
    let includes = compile_patterns(&["**/*.txt".to_string()]).unwrap();
    assert!(path_matches_filters("/tmp/readme.txt", &includes, &[]));
    assert!(!path_matches_filters("/tmp/readme.md", &includes, &[]));
}

#[test]
fn depth_counts_from_root() {
    assert_eq!(path_depth("/"), 0);
    assert_eq!(path_depth("/etc"), 1);
    assert_eq!(path_depth("/etc/passwd"), 2);
    assert!(path_within_depth("/etc", Some(1)));
    assert!(!path_within_depth("/etc/passwd", Some(1)));
}

#[test]
fn non_recursive_sets_max_depth_one() {
    let options = ScanOptions::build(None, false, &[], &[], true, false, None).unwrap();
    assert_eq!(options.max_depth, Some(1));
}

#[test]
fn explicit_depth_wins_over_recursion_flag() {
    let options = ScanOptions::build(Some(3), false, &[], &[], true, false, None).unwrap();
    assert_eq!(options.max_depth, Some(3));
    assert_eq!(walk_max_depth(&options), Some(3));
    let recursive = ScanOptions::build(None, true, &[], &[], true, false, None).unwrap();
    assert_eq!(recursive.max_depth, None);
    assert_eq!(walk_max_depth(&recursive), None);
}

#[test]
fn invalid_glob_is_reported_with_glob_reason() {
    let err = compile_pattern("a[").unwrap_err();
    assert_eq!(err.pattern, "a[");
    assert!(err.message().starts_with("invalid glob pattern: a[: Pattern syntax error near position "));
    let err = ScanOptions::build(None, true, &["ok*".to_string()], &["[".to_string()], true, false, None)
        .unwrap_err();
    assert_eq!(err.pattern, "[");
}

#[test]
fn exclude_wins_over_include_and_backslashes_are_normalized() {
    let includes = compile_patterns(&["**/*.log".to_string()]).unwrap();
    let excludes = compile_patterns(&["**/secret/*".to_string()]).unwrap();
    assert!(path_matches_filters("/var/app.log", &includes, &excludes));
    assert!(!path_matches_filters("/var/secret/app.log", &includes, &excludes));
    let windows = compile_patterns(&["C:/logs/*.log".to_string()]).unwrap();
    assert!(path_matches_filters("C:\\logs\\a.log", &windows, &[]));
}

#[test]
fn walk_entries_need_a_selected_path_and_a_supported_kind() {
    let options = ScanOptions::build(Some(1), true, &[], &[], true, false, None).unwrap();
    assert!(accept_walk_entry("/etc", "/etc", true, false, false, &options));
    assert!(!accept_walk_entry("/etc", "/etc", false, false, false, &options));
    assert!(accept_walk_entry("/etc/passwd", "/etc", false, true, false, &options));
    assert!(!accept_walk_entry("/etc/ssh/sshd_config", "/etc", false, true, false, &options));
}

#[test]
fn jobs_default_to_available_parallelism() {
    assert_eq!(resolve_jobs(3, Some(8)), 3);
    assert_eq!(resolve_jobs(0, Some(8)), 8);
    assert_eq!(resolve_jobs(0, None), 1);
}

#[test]
fn statx_record_keeps_birth_time_only_when_reported() {
    let info = StatxInfo {
        ino: 7,
        size: 10,
        mode: 0o040755,
        uid: 1000,
        gid: 100,
        mtime: (1_700_000_000, 5),
        atime: (1_700_000_100, 0),
        ctime: (1_700_000_200, 0),
        btime: (1_699_000_000, 0),
        btime_reported: true,
    };
    let record = record_from_statx("/home".to_string(), info);
    assert!(record.is_dir);
    assert_eq!(record.mode, Some(0o040755));
    assert_eq!(record.inode, Some(7));
    assert_eq!(record.mtime.unwrap().nanos(), 5);
    assert_eq!(record.btime.unwrap().secs(), 1_699_000_000);
    let unreported = record_from_statx(
        "/home".to_string(),
        StatxInfo { btime_reported: false, ..info },
    );
    assert!(unreported.btime.is_none());
    let zero = record_from_statx("/home".to_string(), StatxInfo { btime: (0, 0), ..info });
    assert!(zero.btime.is_none());
    let file = record_from_statx("/f".to_string(), StatxInfo { mode: 0o100600, ..info });
    assert!(!file.is_dir);
}

#[test]
fn metadata_record_has_no_birth_time() {
    let meta = MetadataInfo {
        ino: 3,
        len: 99,
        mode: 0o100644,
        uid: 0,
        gid: 0,
        mtime: 1_700_000_000,
        atime: 1_700_000_001,
        ctime: 1_700_000_002,
        is_dir: false,
    };
    let record = record_from_metadata("/f".to_string(), meta, None);
    assert_eq!(record.inode, Some(3));
    assert!(record.btime.is_none());
    assert_eq!(record.ctime.unwrap().secs(), 1_700_000_002);
    let overridden = record_from_metadata("/f".to_string(), meta, Some(44));
    assert_eq!(overridden.inode, Some(44));
}

#[test]
fn missing_scan_target_is_refused() {
    assert!(check_scan_target("/nope", true, true).is_ok());
    assert!(check_scan_target("/nope", false, false).is_ok());
    let err = check_scan_target("/nope", true, false).unwrap_err();
    assert_eq!(err.message(), "path does not exist: /nope");
    assert_eq!(
        ScanError::UnsupportedPlatform.message(),
        "live MACB scanning requires Linux; run on the target host or use --image for offline analysis"
    );
}

#[test]
fn pattern_options_scan_recursively_without_extras() {
    let options = ScanOptions::from_patterns(Some(2), &["*.txt".to_string()], &[], false).unwrap();
    assert_eq!(options.max_depth, Some(2));
    assert!(options.recursive);
    assert!(!options.include_deleted);
    assert!(options.hash.is_none());
    assert_eq!(options.includes[0].source(), "*.txt");
    assert!(ScanOptions::from_patterns(None, &[], &["[z".to_string()], false).is_err());
}

#[test]
fn verdict_from_pattern_hits() {
    assert!(macb_timeline::scanner::filters_verdict(&vec![], &vec![false, false]));
    assert!(!macb_timeline::scanner::filters_verdict(&vec![true], &vec![false, true]));
    assert!(!macb_timeline::scanner::filters_verdict(&vec![false, false], &vec![]));
    assert!(macb_timeline::scanner::filters_verdict(&vec![false, true], &vec![]));
    assert_eq!(macb_timeline::scanner::normalize_path_for_glob("a\\b/c"), "a/b/c");
}

#[test]
fn max_depth_zero_keeps_only_the_scan_root() {
    let options = ScanOptions::build(Some(0), true, &[], &[], true, false, None).unwrap();
    assert!(accept_walk_entry("/tmp/d", "/tmp/d", true, false, false, &options));
    assert!(!accept_walk_entry("/tmp/d/f", "/tmp/d", false, true, false, &options));
    assert!(accept_walk_entry("./d", "./d", true, false, false, &options));
    assert!(macb_timeline::paths::path_within_depth_from("/tmp/d/", "/tmp/d", Some(0)));
    assert!(macb_timeline::paths::path_within_depth_from("/a/b/c", "/a", Some(2)));
    assert!(!macb_timeline::paths::path_within_depth_from("/a/b/c", "/a", Some(1)));
}
