//! MACB (modified, accessed, changed, born) timestamp collection, timelines
//! and timestamp-anomaly detection, with its contracts proved by Verus.

pub mod anomalies;
pub mod cli;
pub mod clock;
pub mod field_laws;
pub mod hash;
pub mod laws;
pub mod model;
pub mod orders;
pub mod output;
pub mod paths;
pub mod pipeline;
pub mod rule_laws;
pub mod scanner;
pub mod sort;
pub mod text;
pub mod time_filter;
pub mod timeline;
pub mod tsk;

pub use anomalies::{annotate_records, detect_anomalies};
pub use cli::{Cli, CliOutputFormat, CliSeverity, CliSortField, Command, ScanArgs, TimelineArgs};
pub use hash::HashAlgorithm;
pub use model::{
    Anomaly, AnomalyRule, MacbRecord, MacbType, OutputFormat, Severity, SortField, TimelineEvent,
    Timestamp,
};
pub use output::{format_bodyfile_mode, render_records, render_timeline};
pub use scanner::{ScanError, ScanOptions};
pub use time_filter::{filter_records_by_time, filter_timeline_by_time, TimeRange};
pub use timeline::{build_timeline, filter_records, filter_timeline, sort_records, sort_timeline};
