use vstd::prelude::*;

use crate::cli::{
    output_format_of, severity_of, sort_field_of, CliOutputFormat, CliSeverity, CliSortField,
    ScanArgs, TimelineArgs,
};
use crate::hash::{
    hash_algorithm_spec, unsupported_hash_message_spec, HashAlgorithm, UnsupportedHashAlgorithm,
};
use crate::model::{
    events_view, records_view, EventView, MacbRecord, OutputFormat, RecordView, Severity,
    SortField, TimelineEvent,
};
use crate::scanner::{
    all_valid, effective_max_depth, glob_error_message_spec, glob_valid, pattern_sources,
    string_views, GlobPatternError, ScanOptions,
};
use crate::sort::is_stable_sort;
use crate::text::append_str;
use crate::time_filter::{
    events_in_range, opt_str_view, opt_ts_pair, range_parse_spec, records_in_range,
    time_range_message_spec, TimeRange, TimeRangeError,
};
use crate::timeline::{
    build_timeline, events_with_anomaly, filter_records, filter_timeline, record_order_for,
    records_with_anomaly, sort_records, sort_timeline, timeline_sorted_spec, timeline_spec,
};
use crate::time_filter::{filter_records_by_time, filter_timeline_by_time};

verus! {

/// Why a run could not be set up from its options.
#[derive(Debug)]
pub enum SetupError {
    Hash(UnsupportedHashAlgorithm),
    Time(TimeRangeError),
    Glob(GlobPatternError),
    MissingPath,
}

impl SetupError {
    pub fn message(&self) -> (r: String)
        ensures
            self matches SetupError::Hash(e) ==> r@ == unsupported_hash_message_spec(e.value@),
            self matches SetupError::Time(e) ==> r@ == time_range_message_spec(e@),
            self matches SetupError::Glob(e) ==> r@ == glob_error_message_spec(*e),
            self matches SetupError::MissingPath ==> r@
                == "a scan path is required for live filesystem scans"@,
    {
        match self {
            SetupError::Hash(e) => e.message(),
            SetupError::Time(e) => e.message(),
            SetupError::Glob(e) => e.message(),
            SetupError::MissingPath => {
                let mut out = String::new();
                append_str(&mut out, "a scan path is required for live filesystem scans");
                out
            },
        }
    }
}

/// The optional `--hash` value parsed.
pub fn parse_hash_option(value: Option<&str>) -> (r: Result<
    Option<HashAlgorithm>,
    UnsupportedHashAlgorithm,
>)
    ensures
        value is None ==> r == Ok::<Option<HashAlgorithm>, UnsupportedHashAlgorithm>(None),
        value matches Some(v) ==> match hash_algorithm_spec(v@) {
            Some(a) => r == Ok::<Option<HashAlgorithm>, UnsupportedHashAlgorithm>(Some(a)),
            None => r matches Err(e) && e.value@ == v@,
        },
{
    match value {
        None => Ok(None),
        Some(v) => match HashAlgorithm::parse(v) {
            Ok(a) => Ok(Some(a)),
            Err(e) => Err(e),
        },
    }
}

/// The path a live scan starts from; one must be given.
pub fn resolve_scan_path(path: Option<String>) -> (r: Result<String, SetupError>)
    ensures
        path is None ==> r matches Err(SetupError::MissingPath),
        path matches Some(p) ==> r matches Ok(q) && q@ == p@,
{
    match path {
        Some(p) => Ok(p),
        None => Err(SetupError::MissingPath),
    }
}

/// A live scan starts from a path that must exist.
pub fn scan_requires_existing_path(path: &Option<String>) -> (r: bool)
    ensures
        r,
{
    true
}

/// A timeline run requires what a scan does.
pub fn timeline_requires_existing_path(path: &Option<String>) -> (r: bool)
    ensures
        r,
{
    scan_requires_existing_path(path)
}

/// Everything a run needs once its options are checked.
#[derive(Debug)]
pub struct RunPlan {
    pub target_path: String,
    pub require_exists: bool,
    pub follow_symlinks: bool,
    pub jobs: usize,
    pub options: ScanOptions,
    pub time_range: TimeRange,
    pub anomalies_only: bool,
    pub min_severity: Severity,
    pub sort: SortField,
    pub format: OutputFormat,
    pub output_file: Option<String>,
}

pub open spec fn opt_string_view(v: Option<String>) -> Option<Seq<char>> {
    match v {
        Some(s) => Some(s@),
        None => None,
    }
}

/// The options a run is given, as plain values.
pub struct RunRequest {
    pub path: Option<Seq<char>>,
    pub recursive: bool,
    pub follow_symlinks: bool,
    pub format: CliOutputFormat,
    pub sort: CliSortField,
    pub anomalies_only: bool,
    pub min_severity: CliSeverity,
    pub jobs: usize,
    pub max_depth: Option<u32>,
    pub includes: Seq<String>,
    pub excludes: Seq<String>,
    pub quiet: bool,
    pub output_file: Option<Seq<char>>,
    pub since: Option<Seq<char>>,
    pub until: Option<Seq<char>>,
    pub hash: Option<Seq<char>>,
}

pub open spec fn scan_request(a: ScanArgs) -> RunRequest {
    RunRequest {
        path: opt_string_view(a.path),
        recursive: a.recursive,
        follow_symlinks: a.follow_symlinks,
        format: a.output,
        sort: a.sort,
        anomalies_only: a.anomalies_only,
        min_severity: a.min_severity,
        jobs: a.jobs,
        max_depth: a.max_depth,
        includes: a.includes@,
        excludes: a.excludes@,
        quiet: a.quiet,
        output_file: opt_string_view(a.output_file),
        since: opt_string_view(a.since),
        until: opt_string_view(a.until),
        hash: opt_string_view(a.hash),
    }
}

pub open spec fn timeline_request(a: TimelineArgs) -> RunRequest {
    RunRequest {
        path: opt_string_view(a.path),
        recursive: a.recursive,
        follow_symlinks: a.follow_symlinks,
        format: a.format,
        sort: a.sort,
        anomalies_only: a.anomalies_only,
        min_severity: a.min_severity,
        jobs: a.jobs,
        max_depth: a.max_depth,
        includes: a.includes@,
        excludes: a.excludes@,
        quiet: a.quiet,
        output_file: opt_string_view(a.output_file),
        since: opt_string_view(a.since),
        until: opt_string_view(a.until),
        hash: opt_string_view(a.hash),
    }
}

/// The hash option names no supported algorithm.
pub open spec fn bad_hash(q: RunRequest) -> bool {
    q.hash matches Some(h) && hash_algorithm_spec(h) is None
}

/// The plan a request gives, or the first problem with it: the hash option,
/// then the time range, then the glob patterns, then a missing path.
pub open spec fn plan_matches(r: Result<RunPlan, SetupError>, q: RunRequest) -> bool {
    if bad_hash(q) {
        r matches Err(SetupError::Hash(e)) && Some(e.value@) == q.hash
    } else if range_parse_spec(q.since, q.until) is Err {
        r matches Err(SetupError::Time(e)) && range_parse_spec(q.since, q.until) == Err::<
            (Option<(i64, u32)>, Option<(i64, u32)>),
            _,
        >(e@)
    } else if !(all_valid(q.includes) && all_valid(q.excludes)) {
        r matches Err(SetupError::Glob(e)) && ((exists|i: int|
            0 <= i < q.includes.len() && e.pattern@ == (#[trigger] q.includes[i])@ && !glob_valid(
                q.includes[i]@,
            )) || (all_valid(q.includes) && exists|i: int|
            0 <= i < q.excludes.len() && e.pattern@ == (#[trigger] q.excludes[i])@ && !glob_valid(
                q.excludes[i]@,
            )))
    } else if q.path is None {
        r matches Err(SetupError::MissingPath)
    } else {
        r matches Ok(plan) && {
            let times = range_parse_spec(q.since, q.until)->Ok_0;
            &&& Some(plan.target_path@) == q.path
            &&& plan.require_exists
            &&& plan.follow_symlinks == q.follow_symlinks
            &&& plan.jobs == q.jobs
            &&& plan.options.max_depth == effective_max_depth(q.max_depth, q.recursive)
            &&& pattern_sources(plan.options.includes@) == string_views(q.includes)
            &&& pattern_sources(plan.options.excludes@) == string_views(q.excludes)
            &&& plan.options.quiet == q.quiet
            &&& plan.options.recursive == q.recursive
            &&& !plan.options.include_deleted
            &&& plan.options.hash == match q.hash {
                Some(h) => hash_algorithm_spec(h),
                None => None::<HashAlgorithm>,
            }
            &&& opt_ts_pair(plan.time_range.since) == times.0
            &&& opt_ts_pair(plan.time_range.until) == times.1
            &&& plan.anomalies_only == q.anomalies_only
            &&& plan.min_severity == severity_of(q.min_severity)
            &&& plan.sort == sort_field_of(q.sort)
            &&& plan.format == output_format_of(q.format)
            &&& opt_string_view(plan.output_file) == q.output_file
        }
    }
}

fn plan_run(
    path: Option<String>,
    recursive: bool,
    follow_symlinks: bool,
    format: CliOutputFormat,
    sort: CliSortField,
    anomalies_only: bool,
    min_severity: CliSeverity,
    jobs: usize,
    max_depth: Option<u32>,
    includes: &Vec<String>,
    excludes: &Vec<String>,
    quiet: bool,
    output_file: Option<String>,
    since: &Option<String>,
    until: &Option<String>,
    hash: &Option<String>,
) -> (r: Result<RunPlan, SetupError>)
    ensures
        plan_matches(
            r,
            RunRequest {
                path: opt_string_view(path),
                recursive,
                follow_symlinks,
                format,
                sort,
                anomalies_only,
                min_severity,
                jobs,
                max_depth,
                includes: includes@,
                excludes: excludes@,
                quiet,
                output_file: opt_string_view(output_file),
                since: opt_string_view(*since),
                until: opt_string_view(*until),
                hash: opt_string_view(*hash),
            },
        ),
{
    let hash_text: Option<&str> = match hash {
        Some(h) => Some(h.as_str()),
        None => None,
    };
    let algorithm = match parse_hash_option(hash_text) {
        Ok(a) => a,
        Err(e) => {
            return Err(SetupError::Hash(e));
        },
    };
    let since_text: Option<&str> = match since {
        Some(v) => Some(v.as_str()),
        None => None,
    };
    let until_text: Option<&str> = match until {
        Some(v) => Some(v.as_str()),
        None => None,
    };
    assert(opt_str_view(since_text) == opt_string_view(*since));
    assert(opt_str_view(until_text) == opt_string_view(*until));
    let time_range = match TimeRange::parse(since_text, until_text) {
        Ok(t) => t,
        Err(e) => {
            return Err(SetupError::Time(e));
        },
    };
    let options = match ScanOptions::build(
        max_depth,
        recursive,
        includes.as_slice(),
        excludes.as_slice(),
        quiet,
        false,
        algorithm,
    ) {
        Ok(o) => o,
        Err(e) => {
            return Err(SetupError::Glob(e));
        },
    };
    let require_exists = scan_requires_existing_path(&path);
    let target_path = match resolve_scan_path(path) {
        Ok(p) => p,
        Err(e) => {
            return Err(e);
        },
    };
    Ok(
        RunPlan {
            target_path,
            require_exists,
            follow_symlinks,
            jobs,
            options,
            time_range,
            anomalies_only,
            min_severity: Severity::from(min_severity),
            sort: SortField::from(sort),
            format: OutputFormat::from(format),
            output_file,
        },
    )
}

/// Checks the options of `scan` and gathers what the run needs.
pub fn plan_scan(args: ScanArgs) -> (r: Result<RunPlan, SetupError>)
    ensures
        plan_matches(r, scan_request(args)),
{
    plan_run(
        args.path,
        args.recursive,
        args.follow_symlinks,
        args.output,
        args.sort,
        args.anomalies_only,
        args.min_severity,
        args.jobs,
        args.max_depth,
        &args.includes,
        &args.excludes,
        args.quiet,
        args.output_file,
        &args.since,
        &args.until,
        &args.hash,
    )
}

/// Checks the options of `timeline` and gathers what the run needs.
pub fn plan_timeline(args: TimelineArgs) -> (r: Result<RunPlan, SetupError>)
    ensures
        plan_matches(r, timeline_request(args)),
{
    plan_run(
        args.path,
        args.recursive,
        args.follow_symlinks,
        args.format,
        args.sort,
        args.anomalies_only,
        args.min_severity,
        args.jobs,
        args.max_depth,
        &args.includes,
        &args.excludes,
        args.quiet,
        args.output_file,
        &args.since,
        &args.until,
        &args.hash,
    )
}

/// Records filtered for a report: by the time range, then (when asked) by
/// anomaly severity.
pub open spec fn report_records_spec(
    rs: Seq<RecordView>,
    range: TimeRange,
    anomalies_only: bool,
    min: Severity,
) -> Seq<RecordView> {
    let in_range = records_in_range(rs, range);
    if anomalies_only {
        records_with_anomaly(in_range, min)
    } else {
        in_range
    }
}

/// Events for a report: the records' timeline, filtered by the time range,
/// then (when asked) by anomaly severity.
pub open spec fn report_events_spec(
    rs: Seq<RecordView>,
    range: TimeRange,
    anomalies_only: bool,
    min: Severity,
) -> Seq<EventView> {
    let in_range = events_in_range(timeline_spec(rs), range);
    if anomalies_only {
        events_with_anomaly(in_range, min)
    } else {
        in_range
    }
}

/// What a scan reports of its (annotated, hashed) records: those in the time
/// range, with anomalies when asked, ordered for the sort field.
pub fn process_scan_records(records: Vec<MacbRecord>, plan: &RunPlan) -> (r: Vec<MacbRecord>)
    ensures
        exists|kept: Seq<MacbRecord>|
            records_view(kept) == report_records_spec(
                records_view(records@),
                plan.time_range,
                plan.anomalies_only,
                plan.min_severity,
            ) && is_stable_sort(record_order_for(plan.sort), kept, r@),
{
    let in_range = filter_records_by_time(records, plan.time_range);
    let mut kept = filter_records(in_range, plan.anomalies_only, plan.min_severity);
    let ghost kept_seq = kept@;
    sort_records(&mut kept, plan.sort);
    assert(records_view(kept_seq) == report_records_spec(
        records_view(records@),
        plan.time_range,
        plan.anomalies_only,
        plan.min_severity,
    ) && is_stable_sort(record_order_for(plan.sort), kept_seq, kept@));
    kept
}

/// What a timeline run reports of its (annotated, hashed) records: their
/// events in the time range, with anomalies when asked, ordered for the sort
/// field.
pub fn process_timeline_events(records: &[MacbRecord], plan: &RunPlan) -> (r: Vec<TimelineEvent>)
    ensures
        exists|kept: Seq<TimelineEvent>|
            events_view(kept) == report_events_spec(
                records_view(records@),
                plan.time_range,
                plan.anomalies_only,
                plan.min_severity,
            ) && timeline_sorted_spec(plan.sort, kept, r@),
{
    let events = build_timeline(records);
    let in_range = filter_timeline_by_time(events, plan.time_range);
    let mut kept = filter_timeline(in_range, plan.anomalies_only, plan.min_severity);
    let ghost kept_seq = kept@;
    sort_timeline(&mut kept, plan.sort);
    assert(events_view(kept_seq) == report_events_spec(
        records_view(records@),
        plan.time_range,
        plan.anomalies_only,
        plan.min_severity,
    ) && timeline_sorted_spec(plan.sort, kept_seq, kept@));
    kept
}

} // verus!
