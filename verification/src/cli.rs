use vstd::prelude::*;

use crate::model::{OutputFormat, Severity, SortField};

verus! {

/// The command line: one subcommand.
#[derive(Debug)]
pub struct Cli {
    pub command: Command,
}

/// The subcommands.
#[derive(Debug)]
pub enum Command {
    /// Scan a live filesystem path and report MACB timestamps.
    Scan(ScanArgs),
    /// Build a chronological timeline from MACB timestamps.
    Timeline(TimelineArgs),
}

/// Options of `scan`.
#[derive(Debug)]
pub struct ScanArgs {
    /// Path to scan on a live filesystem.
    pub path: Option<String>,
    /// Recurse into subdirectories (`--no-recursive` turns it off).
    pub recursive: bool,
    /// Follow symbolic links.
    pub follow_symlinks: bool,
    /// Output format.
    pub output: CliOutputFormat,
    /// Sort records by field; `timestamp` uses the latest MACB time.
    pub sort: CliSortField,
    /// Show only records with anomalies.
    pub anomalies_only: bool,
    /// Minimum anomaly severity to show.
    pub min_severity: CliSeverity,
    /// Parallel stat workers (0: one per CPU).
    pub jobs: usize,
    /// Maximum directory depth below the scan root (0: the root only).
    pub max_depth: Option<u32>,
    /// Glob patterns a path must match one of (`--include`).
    pub includes: Vec<String>,
    /// Glob patterns that leave a path out (`--exclude`).
    pub excludes: Vec<String>,
    /// No progress or warnings on stderr.
    pub quiet: bool,
    /// File to write to instead of stdout.
    pub output_file: Option<String>,
    /// Keep records with a MACB time on or after this time.
    pub since: Option<String>,
    /// Keep records with a MACB time on or before this time.
    pub until: Option<String>,
    /// Digest to compute for regular files (md5 or sha256).
    pub hash: Option<String>,
}

/// Options of `timeline`.
#[derive(Debug)]
pub struct TimelineArgs {
    pub path: Option<String>,
    pub recursive: bool,
    pub follow_symlinks: bool,
    /// Output format.
    pub format: CliOutputFormat,
    /// Sort events; a MACB field keeps only events of that kind.
    pub sort: CliSortField,
    /// Show only events of records with anomalies.
    pub anomalies_only: bool,
    pub min_severity: CliSeverity,
    pub jobs: usize,
    pub max_depth: Option<u32>,
    pub includes: Vec<String>,
    pub excludes: Vec<String>,
    pub quiet: bool,
    pub output_file: Option<String>,
    pub since: Option<String>,
    pub until: Option<String>,
    pub hash: Option<String>,
}

/// `--output` / `--format` values.
#[derive(Debug, Clone, Copy, PartialEq, Eq, Structural)]
pub enum CliOutputFormat {
    Table,
    Json,
    Csv,
    Bodyfile,
}

/// `--sort` values.
#[derive(Debug, Clone, Copy, PartialEq, Eq, Structural)]
pub enum CliSortField {
    Timestamp,
    Mtime,
    Atime,
    Ctime,
    Btime,
    Path,
}

/// `--min-severity` values.
#[derive(Debug, Clone, Copy, PartialEq, Eq, Structural)]
pub enum CliSeverity {
    Info,
    Low,
    Medium,
    High,
}

pub open spec fn output_format_of(value: CliOutputFormat) -> OutputFormat {
    match value {
        CliOutputFormat::Table => OutputFormat::Table,
        CliOutputFormat::Json => OutputFormat::Json,
        CliOutputFormat::Csv => OutputFormat::Csv,
        CliOutputFormat::Bodyfile => OutputFormat::Bodyfile,
    }
}

pub open spec fn sort_field_of(value: CliSortField) -> SortField {
    match value {
        CliSortField::Timestamp => SortField::Timestamp,
        CliSortField::Mtime => SortField::Mtime,
        CliSortField::Atime => SortField::Atime,
        CliSortField::Ctime => SortField::Ctime,
        CliSortField::Btime => SortField::Btime,
        CliSortField::Path => SortField::Path,
    }
}

pub open spec fn severity_of(value: CliSeverity) -> Severity {
    match value {
        CliSeverity::Info => Severity::Info,
        CliSeverity::Low => Severity::Low,
        CliSeverity::Medium => Severity::Medium,
        CliSeverity::High => Severity::High,
    }
}

impl From<CliOutputFormat> for OutputFormat {
    fn from(value: CliOutputFormat) -> (r: OutputFormat) {
        match value {
            CliOutputFormat::Table => OutputFormat::Table,
            CliOutputFormat::Json => OutputFormat::Json,
            CliOutputFormat::Csv => OutputFormat::Csv,
            CliOutputFormat::Bodyfile => OutputFormat::Bodyfile,
        }
    }
}

impl vstd::std_specs::convert::FromSpecImpl<CliOutputFormat> for OutputFormat {
    open spec fn obeys_from_spec() -> bool {
        true
    }

    open spec fn from_spec(v: CliOutputFormat) -> OutputFormat {
        output_format_of(v)
    }
}

impl From<CliSortField> for SortField {
    fn from(value: CliSortField) -> (r: SortField) {
        match value {
            CliSortField::Timestamp => SortField::Timestamp,
            CliSortField::Mtime => SortField::Mtime,
            CliSortField::Atime => SortField::Atime,
            CliSortField::Ctime => SortField::Ctime,
            CliSortField::Btime => SortField::Btime,
            CliSortField::Path => SortField::Path,
        }
    }
}

impl vstd::std_specs::convert::FromSpecImpl<CliSortField> for SortField {
    open spec fn obeys_from_spec() -> bool {
        true
    }

    open spec fn from_spec(v: CliSortField) -> SortField {
        sort_field_of(v)
    }
}

impl From<CliSeverity> for Severity {
    fn from(value: CliSeverity) -> (r: Severity) {
        match value {
            CliSeverity::Info => Severity::Info,
            CliSeverity::Low => Severity::Low,
            CliSeverity::Medium => Severity::Medium,
            CliSeverity::High => Severity::High,
        }
    }
}

impl vstd::std_specs::convert::FromSpecImpl<CliSeverity> for Severity {
    open spec fn obeys_from_spec() -> bool {
        true
    }

    open spec fn from_spec(v: CliSeverity) -> Severity {
        severity_of(v)
    }
}

} // verus!
