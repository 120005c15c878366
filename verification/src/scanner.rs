use vstd::prelude::*;

use crate::clock::chrono_utc_valid;
use crate::hash::HashAlgorithm;
use crate::model::{MacbRecord, RecordView, Timestamp};
use crate::output::{forward_slashes, push_forward_slashes};
use crate::paths::{path_within_depth_from, within_depth_from_spec};
use crate::text::append_str;

verus! {

/// What glob's `Pattern::new` makes of a text: `None` when it accepts it as a
/// pattern, else the text of its error (`PatternError`'s `Display`).
pub uninterp spec fn glob_parse_outcome(pattern: Seq<char>) -> Option<Seq<char>>;

/// Whether glob accepts a text as a pattern.
pub open spec fn glob_valid(pattern: Seq<char>) -> bool {
    glob_parse_outcome(pattern) is None
}

/// Whether the glob pattern compiled from `pattern` matches `path` under the
/// default match options (`glob::Pattern::matches`).
pub uninterp spec fn glob_matches(pattern: Seq<char>, path: Seq<char>) -> bool;

#[verifier::external_type_specification]
#[verifier::external_body]
pub struct ExGlobPattern(glob::Pattern);

/// glob `Pattern::new`; on failure, the text of glob's error.
#[verifier::external_body]
fn glob_compile(pattern: &str) -> (r: Result<glob::Pattern, String>)
    ensures
        match r {
            Ok(_) => glob_parse_outcome(pattern@) is None,
            Err(t) => glob_parse_outcome(pattern@) == Some(t@),
        },
{
    match glob::Pattern::new(pattern) {
        Ok(p) => Ok(p),
        Err(e) => Err(e.to_string()),
    }
}

/// A compiled glob pattern together with the text it was compiled from.
#[derive(Debug)]
pub struct GlobPattern {
    source: String,
    compiled: glob::Pattern,
}

impl GlobPattern {
    /// The text the pattern was compiled from.
    pub closed spec fn source_view(&self) -> Seq<char> {
        self.source@
    }

    pub fn source(&self) -> (r: &str)
        ensures
            r@ == self.source_view(),
    {
        self.source.as_str()
    }
}

/// glob `Pattern::matches` on a compiled pattern. A `GlobPattern` is only
/// built by `compile_pattern`, which compiles its `source` with
/// `Pattern::new`, so the answer is glob's for that text.
#[verifier::external_body]
fn glob_pattern_matches(pattern: &GlobPattern, path: &str) -> (r: bool)
    ensures
        r == glob_matches(pattern.source_view(), path@),
{
    pattern.compiled.matches(path)
}

/// A glob pattern that did not compile.
#[derive(Debug)]
pub struct GlobPatternError {
    pub pattern: String,
    /// glob's own account of the error.
    pub detail: String,
}

/// `invalid glob pattern: <pattern>`, followed by glob's own account.
pub open spec fn glob_error_message_spec(e: GlobPatternError) -> Seq<char> {
    "invalid glob pattern: "@ + e.pattern@ + ": "@ + e.detail@
}

impl GlobPatternError {
    pub fn message(&self) -> (r: String)
        ensures
            r@ == glob_error_message_spec(*self),
    {
        let mut out = String::new();
        append_str(&mut out, "invalid glob pattern: ");
        append_str(&mut out, self.pattern.as_str());
        append_str(&mut out, ": ");
        append_str(&mut out, self.detail.as_str());
        out
    }
}

/// Compiles one glob pattern.
pub fn compile_pattern(pattern: &str) -> (r: Result<GlobPattern, GlobPatternError>)
    ensures
        r is Ok <==> glob_valid(pattern@),
        r matches Ok(p) ==> p.source_view() == pattern@,
        r matches Err(e) ==> e.pattern@ == pattern@ && Some(e.detail@) == glob_parse_outcome(
            pattern@,
        ),
{
    match glob_compile(pattern) {
        Ok(compiled) => Ok(GlobPattern { source: pattern.to_string(), compiled }),
        Err(detail) => Err(GlobPatternError { pattern: pattern.to_string(), detail }),
    }
}

/// The sources of compiled patterns.
pub open spec fn pattern_sources(ps: Seq<GlobPattern>) -> Seq<Seq<char>> {
    Seq::new(ps.len(), |i: int| ps[i].source_view())
}

pub open spec fn string_views(ss: Seq<String>) -> Seq<Seq<char>> {
    Seq::new(ss.len(), |i: int| ss[i]@)
}

/// Compiles every pattern, in order; the first that fails is reported.
pub fn compile_patterns(patterns: &[String]) -> (r: Result<Vec<GlobPattern>, GlobPatternError>)
    ensures
        r is Ok <==> forall|i: int| 0 <= i < patterns@.len() ==> glob_valid(#[trigger] patterns@[i]@),
        r matches Ok(ps) ==> pattern_sources(ps@) == string_views(patterns@),
        r matches Err(e) ==> exists|i: int|
            0 <= i < patterns@.len() && e.pattern@ == (#[trigger] patterns@[i])@ && !glob_valid(
                patterns@[i]@,
            ) && Some(e.detail@) == glob_parse_outcome(patterns@[i]@) && forall|j: int|
                0 <= j < i ==> glob_valid(#[trigger] patterns@[j]@),
{
    let mut out: Vec<GlobPattern> = Vec::new();
    let mut i: usize = 0;
    while i < patterns.len()
        invariant
            i <= patterns@.len(),
            out@.len() == i,
            forall|j: int| 0 <= j < i ==> glob_valid(#[trigger] patterns@[j]@),
            forall|j: int| 0 <= j < i ==> (#[trigger] out@[j]).source_view() == patterns@[j]@,
        decreases patterns.len() - i,
    {
        match compile_pattern(patterns[i].as_str()) {
            Ok(p) => out.push(p),
            Err(e) => {
                return Err(e);
            },
        }
        i += 1;
    }
    assert(pattern_sources(out@) =~= string_views(patterns@));
    Ok(out)
}

/// The text patterns are matched against: the path with forward slashes.
pub open spec fn glob_subject(path: Seq<char>) -> Seq<char> {
    forward_slashes(path)
}

pub open spec fn any_pattern_matches(ps: Seq<Seq<char>>, subject: Seq<char>) -> bool {
    exists|i: int| 0 <= i < ps.len() && glob_matches(#[trigger] ps[i], subject)
}

/// A path passes the filters when no excludes pattern matches it and, when
/// includes patterns are given, one of them matches it.
pub open spec fn path_matches_filters_spec(
    path: Seq<char>,
    includes: Seq<Seq<char>>,
    excludes: Seq<Seq<char>>,
) -> bool {
    let subject = glob_subject(path);
    !any_pattern_matches(excludes, subject) && (includes.len() == 0 || any_pattern_matches(
        includes,
        subject,
    ))
}

/// Whether each pattern matches the subject, in order.
fn pattern_hits(patterns: &[GlobPattern], subject: &str) -> (r: Vec<bool>)
    ensures
        r@.len() == patterns@.len(),
        forall|i: int|
            0 <= i < patterns@.len() ==> r@[i] == glob_matches(
                #[trigger] pattern_sources(patterns@)[i],
                subject@,
            ),
{
    let mut hits: Vec<bool> = Vec::new();
    let mut i: usize = 0;
    while i < patterns.len()
        invariant
            i <= patterns@.len(),
            hits@.len() == i,
            forall|j: int|
                0 <= j < i ==> hits@[j] == glob_matches(
                    #[trigger] pattern_sources(patterns@)[j],
                    subject@,
                ),
        decreases patterns.len() - i,
    {
        hits.push(glob_pattern_matches(&patterns[i], subject));
        i += 1;
    }
    hits
}

fn any_true(flags: &Vec<bool>) -> (r: bool)
    ensures
        r == exists|i: int| 0 <= i < flags@.len() && flags@[i],
{
    let mut i: usize = 0;
    while i < flags.len()
        invariant
            i <= flags@.len(),
            forall|j: int| 0 <= j < i ==> !flags@[j],
        decreases flags.len() - i,
    {
        if flags[i] {
            return true;
        }
        i += 1;
    }
    false
}

/// The filter verdict from which patterns matched: no exclude pattern may
/// match, and when include patterns are given one of them must.
pub fn filters_verdict(include_hits: &Vec<bool>, exclude_hits: &Vec<bool>) -> (r: bool)
    ensures
        r == (!(exists|i: int| 0 <= i < exclude_hits@.len() && exclude_hits@[i]) && (
        include_hits@.len() == 0 || exists|i: int| 0 <= i < include_hits@.len() && include_hits@[i])),
{
    if any_true(exclude_hits) {
        return false;
    }
    if include_hits.len() == 0 {
        return true;
    }
    any_true(include_hits)
}

/// The path as glob patterns see it: backslashes turned into slashes.
pub fn normalize_path_for_glob(path: &str) -> (r: String)
    ensures
        r@ == glob_subject(path@),
{
    let mut subject = String::new();
    push_forward_slashes(&mut subject, path);
    assert(subject@ =~= glob_subject(path@));
    subject
}

pub fn path_matches_filters(path: &str, includes: &[GlobPattern], excludes: &[GlobPattern]) -> (r:
    bool)
    ensures
        r == path_matches_filters_spec(
            path@,
            pattern_sources(includes@),
            pattern_sources(excludes@),
        ),
{
    let subject = normalize_path_for_glob(path);
    let include_hits = pattern_hits(includes, subject.as_str());
    let exclude_hits = pattern_hits(excludes, subject.as_str());
    let r = filters_verdict(&include_hits, &exclude_hits);
    proof {
        let ex = pattern_sources(excludes@);
        let inc = pattern_sources(includes@);
        if any_pattern_matches(ex, subject@) {
            let i = choose|i: int| 0 <= i < ex.len() && glob_matches(#[trigger] ex[i], subject@);
            assert(exclude_hits@[i]);
        }
        if any_pattern_matches(inc, subject@) {
            let i = choose|i: int| 0 <= i < inc.len() && glob_matches(#[trigger] inc[i], subject@);
            assert(include_hits@[i]);
        }
        if exists|i: int| 0 <= i < exclude_hits@.len() && exclude_hits@[i] {
            let i = choose|i: int| 0 <= i < exclude_hits@.len() && exclude_hits@[i];
            assert(glob_matches(ex[i], subject@));
        }
        if exists|i: int| 0 <= i < include_hits@.len() && include_hits@[i] {
            let i = choose|i: int| 0 <= i < include_hits@.len() && include_hits@[i];
            assert(glob_matches(inc[i], subject@));
        }
    }
    r
}

/// What limits and filters a scan.
#[derive(Debug)]
pub struct ScanOptions {
    pub max_depth: Option<u32>,
    pub includes: Vec<GlobPattern>,
    pub excludes: Vec<GlobPattern>,
    pub quiet: bool,
    pub recursive: bool,
    pub include_deleted: bool,
    pub hash: Option<HashAlgorithm>,
}

impl Default for ScanOptions {
    fn default() -> (r: ScanOptions)
        ensures
            r.max_depth is None,
            r.includes@.len() == 0,
            r.excludes@.len() == 0,
            !r.quiet,
            r.recursive,
            !r.include_deleted,
            r.hash is None,
    {
        ScanOptions {
            max_depth: None,
            includes: Vec::new(),
            excludes: Vec::new(),
            quiet: false,
            recursive: true,
            include_deleted: false,
            hash: None,
        }
    }
}

/// The depth limit of a scan: the one given, else 1 for a non-recursive scan,
/// else none.
pub open spec fn effective_max_depth(max_depth: Option<u32>, recursive: bool) -> Option<u32> {
    match max_depth {
        Some(d) => Some(d),
        None => if !recursive {
            Some(1u32)
        } else {
            None
        },
    }
}

pub open spec fn all_valid(patterns: Seq<String>) -> bool {
    forall|i: int| 0 <= i < patterns.len() ==> glob_valid(#[trigger] patterns[i]@)
}

impl ScanOptions {
    /// Scan options from command-line values; fails on the first includes
    /// pattern, then the first excludes pattern, that does not compile.
    pub fn build(
        max_depth: Option<u32>,
        recursive: bool,
        includes: &[String],
        excludes: &[String],
        quiet: bool,
        include_deleted: bool,
        hash: Option<HashAlgorithm>,
    ) -> (r: Result<ScanOptions, GlobPatternError>)
        ensures
            r is Ok <==> all_valid(includes@) && all_valid(excludes@),
            r matches Ok(o) ==> {
                &&& o.max_depth == effective_max_depth(max_depth, recursive)
                &&& pattern_sources(o.includes@) == string_views(includes@)
                &&& pattern_sources(o.excludes@) == string_views(excludes@)
                &&& o.quiet == quiet
                &&& o.recursive == recursive
                &&& o.include_deleted == include_deleted
                &&& o.hash == hash
            },
            r matches Err(e) ==> (exists|i: int|
                0 <= i < includes@.len() && e.pattern@ == (#[trigger] includes@[i])@ && !glob_valid(
                    includes@[i]@,
                )) || (all_valid(includes@) && exists|i: int|
                0 <= i < excludes@.len() && e.pattern@ == (#[trigger] excludes@[i])@ && !glob_valid(
                    excludes@[i]@,
                )),
    {
        let max_depth = match max_depth {
            Some(depth) => Some(depth),
            None => if !recursive {
                Some(1u32)
            } else {
                None
            },
        };
        let includes = match compile_patterns(includes) {
            Ok(ps) => ps,
            Err(e) => {
                return Err(e);
            },
        };
        let excludes = match compile_patterns(excludes) {
            Ok(ps) => ps,
            Err(e) => {
                return Err(e);
            },
        };
        Ok(ScanOptions { max_depth, includes, excludes, quiet, recursive, include_deleted, hash })
    }

    /// Recursive scan options without deleted entries or hashing.
    pub fn from_patterns(
        max_depth: Option<u32>,
        includes: &[String],
        excludes: &[String],
        quiet: bool,
    ) -> (r: Result<ScanOptions, GlobPatternError>)
        ensures
            r is Ok <==> all_valid(includes@) && all_valid(excludes@),
            r matches Ok(o) ==> {
                &&& o.max_depth == max_depth
                &&& pattern_sources(o.includes@) == string_views(includes@)
                &&& pattern_sources(o.excludes@) == string_views(excludes@)
                &&& o.quiet == quiet
                &&& o.recursive
                &&& !o.include_deleted
                &&& o.hash is None
            },
    {
        ScanOptions::build(max_depth, true, includes, excludes, quiet, false, None)
    }
}

/// Whether a path found under the scan `root` passes the depth limit, counted
/// from the root, and the filters of the options.
pub open spec fn path_selected_spec(path: Seq<char>, root: Seq<char>, o: ScanOptions) -> bool {
    within_depth_from_spec(path, root, o.max_depth) && path_matches_filters_spec(
        path,
        pattern_sources(o.includes@),
        pattern_sources(o.excludes@),
    )
}

pub fn path_selected(path: &str, root: &str, options: &ScanOptions) -> (r: bool)
    ensures
        r == path_selected_spec(path@, root@, *options),
{
    path_within_depth_from(path, root, options.max_depth) && path_matches_filters(
        path,
        options.includes.as_slice(),
        options.excludes.as_slice(),
    )
}

/// The depth the directory walk is limited to: the option's limit, else 1
/// for a non-recursive scan, else none.
pub fn walk_max_depth(options: &ScanOptions) -> (r: Option<usize>)
    ensures
        r == match effective_max_depth(options.max_depth, options.recursive) {
            Some(d) => Some(d as usize),
            None => None::<usize>,
        },
{
    match options.max_depth {
        Some(depth) => Some(depth as usize),
        None => if !options.recursive {
            Some(1usize)
        } else {
            None
        },
    }
}

/// A walked entry is recorded when its path is selected (its depth counted
/// from the walk's `root`) and it is a directory, a regular file or a
/// symbolic link. The root itself passes any depth limit.
pub fn accept_walk_entry(
    path: &str,
    root: &str,
    is_dir: bool,
    is_file: bool,
    is_symlink: bool,
    options: &ScanOptions,
) -> (r: bool)
    ensures
        r == (path_selected_spec(path@, root@, *options) && (is_dir || is_file || is_symlink)),
        path@ == root@ ==> within_depth_from_spec(path@, root@, options.max_depth),
{
    path_selected(path, root, options) && (is_dir || is_file || is_symlink)
}

/// The number of stat workers: the requested count, or when it is zero the
/// available parallelism (1 when unknown).
pub fn resolve_jobs(requested: usize, available: Option<usize>) -> (r: usize)
    ensures
        requested > 0 ==> r == requested,
        requested == 0 ==> r == match available {
            Some(n) => n,
            None => 1usize,
        },
{
    if requested > 0 {
        return requested;
    }
    match available {
        Some(n) => n,
        None => 1,
    }
}

/// The timestamp chrono forms for a pair, if any.
pub open spec fn timestamp_of(secs: i64, nanos: u32) -> Option<(i64, u32)> {
    if chrono_utc_valid(secs, nanos) {
        Some((secs, nanos))
    } else {
        None
    }
}

pub open spec fn opt_ts_parts(t: Option<Timestamp>) -> Option<(i64, u32)> {
    match t {
        Some(v) => Some((v.spec_secs(), v.spec_nanos())),
        None => None,
    }
}

/// The fields of a `statx` result that a record is built from.
#[derive(Debug, Clone, Copy)]
pub struct StatxInfo {
    pub ino: u64,
    pub size: u64,
    pub mode: u16,
    pub uid: u32,
    pub gid: u32,
    pub mtime: (i64, u32),
    pub atime: (i64, u32),
    pub ctime: (i64, u32),
    pub btime: (i64, u32),
    /// The kernel reported a birth time (`STATX_BTIME` in `stx_mask`).
    pub btime_reported: bool,
}

/// The `S_IFMT` bits of a mode name a directory.
pub open spec fn mode_is_dir(mode: u32) -> bool {
    mode & 0o170000u32 == 0o040000u32
}

/// A birth time is kept when the kernel reported one that is not the epoch.
pub open spec fn statx_btime_spec(info: StatxInfo) -> Option<(i64, u32)> {
    if info.btime_reported && !(info.btime.0 == 0 && info.btime.1 == 0) {
        timestamp_of(info.btime.0, info.btime.1)
    } else {
        None
    }
}

/// The record a `statx` result gives for a path.
pub open spec fn statx_record_matches(r: RecordView, path: Seq<char>, info: StatxInfo) -> bool {
    &&& r.path == path
    &&& r.inode == Some(info.ino)
    &&& opt_ts_parts(r.mtime) == timestamp_of(info.mtime.0, info.mtime.1)
    &&& opt_ts_parts(r.atime) == timestamp_of(info.atime.0, info.atime.1)
    &&& opt_ts_parts(r.ctime) == timestamp_of(info.ctime.0, info.ctime.1)
    &&& opt_ts_parts(r.btime) == statx_btime_spec(info)
    &&& r.size == info.size
    &&& r.mode == Some(info.mode as u32)
    &&& r.uid == Some(info.uid)
    &&& r.gid == Some(info.gid)
    &&& r.md5 is None && r.sha256 is None
    &&& !r.deleted
    &&& r.is_dir == mode_is_dir(info.mode as u32)
    &&& r.anomalies.len() == 0
}

fn timestamp_opt(secs: i64, nanos: u32) -> (r: Option<Timestamp>)
    ensures
        opt_ts_parts(r) == timestamp_of(secs, nanos),
{
    Timestamp::from_parts(secs, nanos)
}

/// Builds the record for a path from its `statx` result.
pub fn record_from_statx(path: String, info: StatxInfo) -> (r: MacbRecord)
    ensures
        statx_record_matches(r@, path@, info),
{
    let btime = if info.btime_reported && !(info.btime.0 == 0 && info.btime.1 == 0) {
        timestamp_opt(info.btime.0, info.btime.1)
    } else {
        None
    };
    let mode: u32 = info.mode as u32;
    MacbRecord {
        path,
        inode: Some(info.ino),
        mtime: timestamp_opt(info.mtime.0, info.mtime.1),
        atime: timestamp_opt(info.atime.0, info.atime.1),
        ctime: timestamp_opt(info.ctime.0, info.ctime.1),
        btime,
        size: info.size,
        mode: Some(mode),
        uid: Some(info.uid),
        gid: Some(info.gid),
        md5: None,
        sha256: None,
        deleted: false,
        is_dir: mode & 0o170000u32 == 0o040000u32,
        anomalies: Vec::new(),
    }
}

/// The fields of `std::fs::Metadata` a record is built from when `statx` is
/// unavailable (whole-second timestamps, no birth time).
#[derive(Debug, Clone, Copy)]
pub struct MetadataInfo {
    pub ino: u64,
    pub len: u64,
    pub mode: u32,
    pub uid: u32,
    pub gid: u32,
    pub mtime: i64,
    pub atime: i64,
    pub ctime: i64,
    pub is_dir: bool,
}

/// The record `lstat` metadata gives for a path; `inode` overrides the
/// metadata's own inode number.
pub open spec fn metadata_record_matches(
    r: RecordView,
    path: Seq<char>,
    meta: MetadataInfo,
    inode: Option<u64>,
) -> bool {
    &&& r.path == path
    &&& r.inode == Some(
        match inode {
            Some(i) => i,
            None => meta.ino,
        },
    )
    &&& opt_ts_parts(r.mtime) == timestamp_of(meta.mtime, 0)
    &&& opt_ts_parts(r.atime) == timestamp_of(meta.atime, 0)
    &&& opt_ts_parts(r.ctime) == timestamp_of(meta.ctime, 0)
    &&& r.btime is None
    &&& r.size == meta.len
    &&& r.mode == Some(meta.mode)
    &&& r.uid == Some(meta.uid)
    &&& r.gid == Some(meta.gid)
    &&& r.md5 is None && r.sha256 is None
    &&& !r.deleted
    &&& r.is_dir == meta.is_dir
    &&& r.anomalies.len() == 0
}

pub fn record_from_metadata(path: String, meta: MetadataInfo, inode: Option<u64>) -> (r: MacbRecord)
    ensures
        metadata_record_matches(r@, path@, meta, inode),
{
    let ino = match inode {
        Some(i) => i,
        None => meta.ino,
    };
    MacbRecord {
        path,
        inode: Some(ino),
        mtime: timestamp_opt(meta.mtime, 0),
        atime: timestamp_opt(meta.atime, 0),
        ctime: timestamp_opt(meta.ctime, 0),
        btime: None,
        size: meta.len,
        mode: Some(meta.mode),
        uid: Some(meta.uid),
        gid: Some(meta.gid),
        md5: None,
        sha256: None,
        deleted: false,
        is_dir: meta.is_dir,
        anomalies: Vec::new(),
    }
}

/// Why a scan could not start.
#[derive(Debug)]
pub enum ScanError {
    NotFound(String),
    PermissionDenied(String),
    UnsupportedPlatform,
}

pub enum ScanErrorView {
    NotFound(Seq<char>),
    PermissionDenied(Seq<char>),
    UnsupportedPlatform,
}

impl View for ScanError {
    type V = ScanErrorView;

    open spec fn view(&self) -> ScanErrorView {
        match self {
            ScanError::NotFound(p) => ScanErrorView::NotFound(p@),
            ScanError::PermissionDenied(p) => ScanErrorView::PermissionDenied(p@),
            ScanError::UnsupportedPlatform => ScanErrorView::UnsupportedPlatform,
        }
    }
}

pub open spec fn scan_error_message_spec(e: ScanErrorView) -> Seq<char> {
    match e {
        ScanErrorView::NotFound(p) => "path does not exist: "@ + p,
        ScanErrorView::PermissionDenied(p) => "permission denied: "@ + p,
        ScanErrorView::UnsupportedPlatform =>
            "live MACB scanning requires Linux; run on the target host or use --image for offline analysis"@,
    }
}

impl ScanError {
    pub fn message(&self) -> (r: String)
        ensures
            r@ == scan_error_message_spec(self@),
    {
        let mut out = String::new();
        match self {
            ScanError::NotFound(p) => {
                append_str(&mut out, "path does not exist: ");
                append_str(&mut out, p.as_str());
            },
            ScanError::PermissionDenied(p) => {
                append_str(&mut out, "permission denied: ");
                append_str(&mut out, p.as_str());
            },
            ScanError::UnsupportedPlatform => {
                append_str(
                    &mut out,
                    "live MACB scanning requires Linux; run on the target host or use --image for offline analysis",
                );
            },
        }
        out
    }
}

/// Before a scan: a path that must exist and does not is refused.
pub fn check_scan_target(path: &str, require_exists: bool, exists: bool) -> (r: Result<(), ScanError>)
    ensures
        r is Err <==> require_exists && !exists,
        r matches Err(e) ==> e@ == ScanErrorView::NotFound(path@),
{
    if require_exists && !exists {
        return Err(ScanError::NotFound(path.to_string()));
    }
    Ok(())
}

} // verus!
