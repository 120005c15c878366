use vstd::prelude::*;

use crate::clock::{
    chrono_utc_display, chrono_utc_format_ymd_hms, chrono_utc_valid, utc_display,
    utc_format_ymd_hms, utc_timestamp_valid,
};

verus! {

/// A UTC instant: whole seconds since the Unix epoch and the nanoseconds past
/// that second. Every value is one that chrono accepts as a `DateTime<Utc>`.
#[derive(Debug, Clone, Copy, PartialEq, Eq, Structural, Hash)]
pub struct Timestamp {
    secs: i64,
    nanos: u32,
}

impl Timestamp {
    #[verifier::type_invariant]
    spec fn valid(self) -> bool {
        chrono_utc_valid(self.secs, self.nanos)
    }

    /// Seconds since the Unix epoch.
    pub closed spec fn spec_secs(self) -> i64 {
        self.secs
    }

    /// Nanoseconds past `spec_secs`.
    pub closed spec fn spec_nanos(self) -> u32 {
        self.nanos
    }

    /// chrono's `Display` of this instant (as in `2023-11-14 22:13:20 UTC`).
    pub fn display(&self) -> (r: String)
        ensures
            r@ == chrono_utc_display(self.spec_secs(), self.spec_nanos()),
    {
        proof {
            use_type_invariant(self);
        }
        utc_display(self.secs, self.nanos)
    }

    /// This instant rendered as `%Y-%m-%d %H:%M:%S UTC`.
    pub fn format_ymd_hms(&self) -> (r: String)
        ensures
            r@ == chrono_utc_format_ymd_hms(self.spec_secs(), self.spec_nanos()),
    {
        proof {
            use_type_invariant(self);
        }
        utc_format_ymd_hms(self.secs, self.nanos)
    }

    /// The timestamp for `secs` seconds and `nanos` nanoseconds past the epoch,
    /// when chrono can represent it.
    pub fn from_parts(secs: i64, nanos: u32) -> (r: Option<Timestamp>)
        ensures
            r is Some <==> chrono_utc_valid(secs, nanos),
            r matches Some(t) ==> t.spec_secs() == secs && t.spec_nanos() == nanos,
    {
        if utc_timestamp_valid(secs, nanos) {
            Some(Timestamp { secs, nanos })
        } else {
            None
        }
    }

    /// The timestamp for a pair that chrono is known to represent.
    pub fn from_valid_parts(secs: i64, nanos: u32) -> (r: Timestamp)
        requires
            chrono_utc_valid(secs, nanos),
        ensures
            r.spec_secs() == secs && r.spec_nanos() == nanos,
    {
        Timestamp { secs, nanos }
    }

    /// The timestamp for a whole number of seconds past the epoch.
    pub fn from_secs(secs: i64) -> (r: Option<Timestamp>)
        ensures
            r is Some <==> chrono_utc_valid(secs, 0),
            r matches Some(t) ==> t.spec_secs() == secs && t.spec_nanos() == 0,
    {
        Timestamp::from_parts(secs, 0)
    }

    pub fn secs(&self) -> (r: i64)
        ensures
            r == self.spec_secs(),
    {
        self.secs
    }

    pub fn nanos(&self) -> (r: u32)
        ensures
            r == self.spec_nanos(),
    {
        self.nanos
    }

    /// `self` is not later than `other`.
    pub fn le(&self, other: &Timestamp) -> (r: bool)
        ensures
            r == ts_le(*self, *other),
    {
        self.secs < other.secs || (self.secs == other.secs && self.nanos <= other.nanos)
    }

    /// `self` is strictly earlier than `other`.
    pub fn lt(&self, other: &Timestamp) -> (r: bool)
        ensures
            r == ts_lt(*self, *other),
    {
        self.secs < other.secs || (self.secs == other.secs && self.nanos < other.nanos)
    }

    /// Two timestamps are the same instant exactly when their parts agree.
    pub proof fn lemma_eq_parts(a: Timestamp, b: Timestamp)
        ensures
            (a == b) <==> (a.spec_secs() == b.spec_secs() && a.spec_nanos() == b.spec_nanos()),
    {
    }
}

/// Chronological order of instants (chrono orders `DateTime<Utc>` the same way).
pub open spec fn ts_le(a: Timestamp, b: Timestamp) -> bool {
    a.spec_secs() < b.spec_secs() || (a.spec_secs() == b.spec_secs() && a.spec_nanos()
        <= b.spec_nanos())
}

pub open spec fn ts_lt(a: Timestamp, b: Timestamp) -> bool {
    a.spec_secs() < b.spec_secs() || (a.spec_secs() == b.spec_secs() && a.spec_nanos()
        < b.spec_nanos())
}

/// The four MACB timestamp kinds.
#[derive(Debug, Clone, Copy, PartialEq, Eq, Structural, Hash)]
pub enum MacbType {
    Modified,
    Accessed,
    Changed,
    Born,
}

/// The one-letter label of a MACB kind.
pub open spec fn macb_label_spec(kind: MacbType) -> Seq<char> {
    match kind {
        MacbType::Modified => seq!['M'],
        MacbType::Accessed => seq!['A'],
        MacbType::Changed => seq!['C'],
        MacbType::Born => seq!['B'],
    }
}

/// The position of a kind's label in string order ("A" < "B" < "C" < "M").
pub open spec fn macb_label_rank(kind: MacbType) -> int {
    match kind {
        MacbType::Accessed => 0,
        MacbType::Born => 1,
        MacbType::Changed => 2,
        MacbType::Modified => 3,
    }
}

impl MacbType {
    pub fn label(self) -> (r: &'static str)
        ensures
            r@ == macb_label_spec(self),
    {
        match self {
            MacbType::Modified => {
                proof {
                    reveal_strlit("M");
                }
                "M"
            },
            MacbType::Accessed => {
                proof {
                    reveal_strlit("A");
                }
                "A"
            },
            MacbType::Changed => {
                proof {
                    reveal_strlit("C");
                }
                "C"
            },
            MacbType::Born => {
                proof {
                    reveal_strlit("B");
                }
                "B"
            },
        }
    }

    /// Rank of the label in string order.
    pub fn label_rank(self) -> (r: u8)
        ensures
            r == macb_label_rank(self),
    {
        match self {
            MacbType::Accessed => 0,
            MacbType::Born => 1,
            MacbType::Changed => 2,
            MacbType::Modified => 3,
        }
    }
}

/// Anomaly severities, from least to most severe.
#[derive(Debug, Clone, Copy, PartialEq, Eq, Structural, PartialOrd, Ord, Hash)]
pub enum Severity {
    Info,
    Low,
    Medium,
    High,
}

pub open spec fn severity_rank(s: Severity) -> int {
    match s {
        Severity::Info => 0,
        Severity::Low => 1,
        Severity::Medium => 2,
        Severity::High => 3,
    }
}

/// `s` is at least as severe as `min`.
pub open spec fn severity_at_least(s: Severity, min: Severity) -> bool {
    severity_rank(s) >= severity_rank(min)
}

pub open spec fn severity_label_spec(s: Severity) -> Seq<char> {
    match s {
        Severity::Info => seq!['I', 'N', 'F', 'O'],
        Severity::Low => seq!['L', 'O', 'W'],
        Severity::Medium => seq!['M', 'E', 'D', 'I', 'U', 'M'],
        Severity::High => seq!['H', 'I', 'G', 'H'],
    }
}

impl Severity {
    pub fn label(self) -> (r: &'static str)
        ensures
            r@ == severity_label_spec(self),
    {
        match self {
            Severity::Info => {
                proof {
                    reveal_strlit("INFO");
                }
                "INFO"
            },
            Severity::Low => {
                proof {
                    reveal_strlit("LOW");
                }
                "LOW"
            },
            Severity::Medium => {
                proof {
                    reveal_strlit("MEDIUM");
                }
                "MEDIUM"
            },
            Severity::High => {
                proof {
                    reveal_strlit("HIGH");
                }
                "HIGH"
            },
        }
    }

    pub fn rank(self) -> (r: u8)
        ensures
            r == severity_rank(self),
    {
        match self {
            Severity::Info => 0,
            Severity::Low => 1,
            Severity::Medium => 2,
            Severity::High => 3,
        }
    }

    /// `self >= min` in severity order.
    pub fn at_least(self, min: Severity) -> (r: bool)
        ensures
            r == severity_at_least(self, min),
    {
        self.rank() >= min.rank()
    }
}

/// The rules that flag a record.
#[derive(Debug, Clone, Copy, PartialEq, Eq, Structural, Hash)]
pub enum AnomalyRule {
    BtimeAfterMtime,
    BtimeAfterAtime,
    MtimeInFuture,
    BtimeInFuture,
    CtimeBeforeMtime,
    AllTimestampsEqual,
    ZeroTimestamps,
    NtfsSiFnMismatch,
}

/// One finding on a record.
#[derive(Debug)]
pub struct Anomaly {
    pub rule: AnomalyRule,
    pub severity: Severity,
    pub description: String,
    pub timestamps_involved: Vec<MacbType>,
}

/// What an anomaly holds, as plain values.
pub struct AnomalyView {
    pub rule: AnomalyRule,
    pub severity: Severity,
    pub description: Seq<char>,
    pub timestamps_involved: Seq<MacbType>,
}

impl View for Anomaly {
    type V = AnomalyView;

    open spec fn view(&self) -> AnomalyView {
        AnomalyView {
            rule: self.rule,
            severity: self.severity,
            description: self.description@,
            timestamps_involved: self.timestamps_involved@,
        }
    }
}

/// The views of a sequence of anomalies.
pub open spec fn anomalies_view(s: Seq<Anomaly>) -> Seq<AnomalyView> {
    Seq::new(s.len(), |i: int| s[i]@)
}

impl Clone for Anomaly {
    fn clone(&self) -> (r: Self)
        ensures
            r@ == self@,
    {
        let involved = self.timestamps_involved.clone();
        assert(involved@ =~= self.timestamps_involved@);
        Anomaly {
            rule: self.rule,
            severity: self.severity,
            description: self.description.clone(),
            timestamps_involved: involved,
        }
    }
}

/// Copies a list of anomalies.
pub fn clone_anomalies(v: &Vec<Anomaly>) -> (r: Vec<Anomaly>)
    ensures
        anomalies_view(r@) == anomalies_view(v@),
{
    let mut out: Vec<Anomaly> = Vec::new();
    let mut i: usize = 0;
    while i < v.len()
        invariant
            i <= v.len(),
            out.len() == i,
            forall|k: int| 0 <= k < i ==> (#[trigger] out@[k])@ == v@[k]@,
        decreases v.len() - i,
    {
        out.push(v[i].clone());
        i += 1;
    }
    assert(anomalies_view(out@) =~= anomalies_view(v@));
    out
}

/// MACB timestamps and metadata of one filesystem entry.
#[derive(Debug)]
pub struct MacbRecord {
    pub path: String,
    pub inode: Option<u64>,
    pub mtime: Option<Timestamp>,
    pub atime: Option<Timestamp>,
    pub ctime: Option<Timestamp>,
    pub btime: Option<Timestamp>,
    pub size: u64,
    pub mode: Option<u32>,
    pub uid: Option<u32>,
    pub gid: Option<u32>,
    pub md5: Option<String>,
    pub sha256: Option<String>,
    pub deleted: bool,
    pub is_dir: bool,
    pub anomalies: Vec<Anomaly>,
}

pub open spec fn opt_string_view(s: Option<String>) -> Option<Seq<char>> {
    match s {
        Some(v) => Some(v@),
        None => None,
    }
}

/// What a record holds, as plain values.
pub struct RecordView {
    pub path: Seq<char>,
    pub inode: Option<u64>,
    pub mtime: Option<Timestamp>,
    pub atime: Option<Timestamp>,
    pub ctime: Option<Timestamp>,
    pub btime: Option<Timestamp>,
    pub size: u64,
    pub mode: Option<u32>,
    pub uid: Option<u32>,
    pub gid: Option<u32>,
    pub md5: Option<Seq<char>>,
    pub sha256: Option<Seq<char>>,
    pub deleted: bool,
    pub is_dir: bool,
    pub anomalies: Seq<AnomalyView>,
}

impl View for MacbRecord {
    type V = RecordView;

    open spec fn view(&self) -> RecordView {
        RecordView {
            path: self.path@,
            inode: self.inode,
            mtime: self.mtime,
            atime: self.atime,
            ctime: self.ctime,
            btime: self.btime,
            size: self.size,
            mode: self.mode,
            uid: self.uid,
            gid: self.gid,
            md5: opt_string_view(self.md5),
            sha256: opt_string_view(self.sha256),
            deleted: self.deleted,
            is_dir: self.is_dir,
            anomalies: anomalies_view(self.anomalies@),
        }
    }
}

/// The views of a sequence of records.
pub open spec fn records_view(s: Seq<MacbRecord>) -> Seq<RecordView> {
    Seq::new(s.len(), |i: int| s[i]@)
}

pub fn clone_opt_string(s: &Option<String>) -> (r: Option<String>)
    ensures
        opt_string_view(r) == opt_string_view(*s),
{
    match s {
        Some(v) => Some(v.clone()),
        None => None,
    }
}

impl Clone for MacbRecord {
    fn clone(&self) -> (r: Self)
        ensures
            r@ == self@,
    {
        MacbRecord {
            path: self.path.clone(),
            inode: self.inode,
            mtime: self.mtime,
            atime: self.atime,
            ctime: self.ctime,
            btime: self.btime,
            size: self.size,
            mode: self.mode,
            uid: self.uid,
            gid: self.gid,
            md5: clone_opt_string(&self.md5),
            sha256: clone_opt_string(&self.sha256),
            deleted: self.deleted,
            is_dir: self.is_dir,
            anomalies: clone_anomalies(&self.anomalies),
        }
    }
}

/// The timestamp of the given kind held by a record view.
pub open spec fn record_timestamp_spec(r: RecordView, kind: MacbType) -> Option<Timestamp> {
    match kind {
        MacbType::Modified => r.mtime,
        MacbType::Accessed => r.atime,
        MacbType::Changed => r.ctime,
        MacbType::Born => r.btime,
    }
}

/// The later of two optional instants; a missing one is ignored.
pub open spec fn max_opt_ts(a: Option<Timestamp>, b: Option<Timestamp>) -> Option<Timestamp> {
    match (a, b) {
        (Some(x), Some(y)) => if ts_le(x, y) {
            Some(y)
        } else {
            Some(x)
        },
        (Some(x), None) => Some(x),
        (None, y) => y,
    }
}

/// The latest of the M/A/C/B timestamps that are present.
pub open spec fn latest_timestamp_spec(r: RecordView) -> Option<Timestamp> {
    max_opt_ts(max_opt_ts(max_opt_ts(r.mtime, r.atime), r.ctime), r.btime)
}

/// Some anomaly in the list is at least as severe as `min`.
pub open spec fn has_anomaly_at_or_above_spec(anomalies: Seq<AnomalyView>, min: Severity) -> bool {
    exists|i: int| 0 <= i < anomalies.len() && severity_at_least(#[trigger] anomalies[i].severity, min)
}

fn max_opt(a: Option<Timestamp>, b: Option<Timestamp>) -> (r: Option<Timestamp>)
    ensures
        r == max_opt_ts(a, b),
{
    match (a, b) {
        (Some(x), Some(y)) => if x.le(&y) {
            Some(y)
        } else {
            Some(x)
        },
        (Some(x), None) => Some(x),
        (None, y) => y,
    }
}

impl MacbRecord {
    pub fn timestamp(&self, kind: MacbType) -> (r: Option<Timestamp>)
        ensures
            r == record_timestamp_spec(self@, kind),
    {
        match kind {
            MacbType::Modified => self.mtime,
            MacbType::Accessed => self.atime,
            MacbType::Changed => self.ctime,
            MacbType::Born => self.btime,
        }
    }

    /// Latest available MACB timestamp across M/A/C/B.
    pub fn latest_timestamp(&self) -> (r: Option<Timestamp>)
        ensures
            r == latest_timestamp_spec(self@),
    {
        max_opt(max_opt(max_opt(self.mtime, self.atime), self.ctime), self.btime)
    }

    pub fn has_anomaly_at_or_above(&self, min: Severity) -> (r: bool)
        ensures
            r == has_anomaly_at_or_above_spec(self@.anomalies, min),
    {
        has_anomaly_at_or_above(&self.anomalies, min)
    }
}

/// Some anomaly of the list is at least as severe as `min`.
pub fn has_anomaly_at_or_above(anomalies: &Vec<Anomaly>, min: Severity) -> (r: bool)
    ensures
        r == has_anomaly_at_or_above_spec(anomalies_view(anomalies@), min),
{
    let mut i: usize = 0;
    while i < anomalies.len()
        invariant
            i <= anomalies.len(),
            forall|j: int|
                0 <= j < i ==> !severity_at_least(#[trigger] anomalies@[j].severity, min),
        decreases anomalies.len() - i,
    {
        if anomalies[i].severity.at_least(min) {
            assert(anomalies_view(anomalies@)[i as int].severity == anomalies@[i as int].severity);
            return true;
        }
        i += 1;
    }
    proof {
        let v = anomalies_view(anomalies@);
        assert forall|j: int| 0 <= j < v.len() implies !severity_at_least(
            #[trigger] v[j].severity,
            min,
        ) by {
            assert(v[j].severity == anomalies@[j].severity);
        }
    }
    false
}

/// One MACB event of the timeline.
#[derive(Debug)]
pub struct TimelineEvent {
    pub timestamp: Timestamp,
    pub event_type: MacbType,
    pub path: String,
    pub anomalies: Vec<Anomaly>,
}

pub struct EventView {
    pub timestamp: Timestamp,
    pub event_type: MacbType,
    pub path: Seq<char>,
    pub anomalies: Seq<AnomalyView>,
}

impl View for TimelineEvent {
    type V = EventView;

    open spec fn view(&self) -> EventView {
        EventView {
            timestamp: self.timestamp,
            event_type: self.event_type,
            path: self.path@,
            anomalies: anomalies_view(self.anomalies@),
        }
    }
}

pub open spec fn events_view(s: Seq<TimelineEvent>) -> Seq<EventView> {
    Seq::new(s.len(), |i: int| s[i]@)
}

impl Clone for TimelineEvent {
    fn clone(&self) -> (r: Self)
        ensures
            r@ == self@,
    {
        TimelineEvent {
            timestamp: self.timestamp,
            event_type: self.event_type,
            path: self.path.clone(),
            anomalies: clone_anomalies(&self.anomalies),
        }
    }
}

/// How records and events are ordered.
#[derive(Debug, Clone, Copy, PartialEq, Eq, Structural)]
pub enum SortField {
    Timestamp,
    Mtime,
    Atime,
    Ctime,
    Btime,
    Path,
}

/// The rendering of a report.
#[derive(Debug, Clone, Copy, PartialEq, Eq, Structural)]
pub enum OutputFormat {
    Table,
    Json,
    Csv,
    Bodyfile,
}

} // verus!
