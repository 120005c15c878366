use vstd::prelude::*;

use crate::clock::{chrono_utc_display, chrono_utc_valid, utc_now};
use crate::model::{
    anomalies_view, Anomaly, AnomalyRule, AnomalyView, MacbRecord, MacbType, RecordView, Severity,
    Timestamp,
};

verus! {

/// `left` is more than one second after `right` (sub-second filesystem
/// jitter and a one-second slack are ignored).
pub open spec fn is_later_spec(left: Timestamp, right: Timestamp) -> bool {
    left.spec_secs() > right.spec_secs() + 1
}

/// `t` is strictly after the instant (`now_secs`, `now_nanos`).
pub open spec fn after_instant(t: Timestamp, now_secs: i64, now_nanos: u32) -> bool {
    t.spec_secs() > now_secs || (t.spec_secs() == now_secs && t.spec_nanos() > now_nanos)
}

/// chrono's rendering of an instant inside a description.
pub open spec fn disp(t: Timestamp) -> Seq<char> {
    chrono_utc_display(t.spec_secs(), t.spec_nanos())
}

pub open spec fn anomaly_view(
    rule: AnomalyRule,
    severity: Severity,
    description: Seq<char>,
    involved: Seq<MacbType>,
) -> AnomalyView {
    AnomalyView { rule, severity, description, timestamps_involved: involved }
}

/// Birth after modification (high).
pub open spec fn rule_btime_after_mtime(r: RecordView) -> Seq<AnomalyView> {
    match (r.btime, r.mtime) {
        (Some(b), Some(m)) => if is_later_spec(b, m) {
            seq![
                anomaly_view(
                    AnomalyRule::BtimeAfterMtime,
                    Severity::High,
                    "Birth time ("@ + disp(b) + ") is after modification time ("@ + disp(m) + ")"@,
                    seq![MacbType::Born, MacbType::Modified],
                ),
            ]
        } else {
            seq![]
        },
        _ => seq![],
    }
}

/// Birth after access (medium).
pub open spec fn rule_btime_after_atime(r: RecordView) -> Seq<AnomalyView> {
    match (r.btime, r.atime) {
        (Some(b), Some(a)) => if is_later_spec(b, a) {
            seq![
                anomaly_view(
                    AnomalyRule::BtimeAfterAtime,
                    Severity::Medium,
                    "Birth time ("@ + disp(b) + ") is after access time ("@ + disp(a) + ")"@,
                    seq![MacbType::Born, MacbType::Accessed],
                ),
            ]
        } else {
            seq![]
        },
        _ => seq![],
    }
}

/// Modification time after the moment of the check (high).
pub open spec fn rule_mtime_in_future(r: RecordView, now_secs: i64, now_nanos: u32) -> Seq<
    AnomalyView,
> {
    match r.mtime {
        Some(m) => if after_instant(m, now_secs, now_nanos) {
            seq![
                anomaly_view(
                    AnomalyRule::MtimeInFuture,
                    Severity::High,
                    "Modification time ("@ + disp(m) + ") is in the future"@,
                    seq![MacbType::Modified],
                ),
            ]
        } else {
            seq![]
        },
        None => seq![],
    }
}

/// Birth time after the moment of the check (high).
pub open spec fn rule_btime_in_future(r: RecordView, now_secs: i64, now_nanos: u32) -> Seq<
    AnomalyView,
> {
    match r.btime {
        Some(b) => if after_instant(b, now_secs, now_nanos) {
            seq![
                anomaly_view(
                    AnomalyRule::BtimeInFuture,
                    Severity::High,
                    "Birth time ("@ + disp(b) + ") is in the future"@,
                    seq![MacbType::Born],
                ),
            ]
        } else {
            seq![]
        },
        None => seq![],
    }
}

/// Change time more than a second before modification time (medium).
pub open spec fn rule_ctime_before_mtime(r: RecordView) -> Seq<AnomalyView> {
    match (r.ctime, r.mtime) {
        (Some(c), Some(m)) => if is_later_spec(m, c) {
            seq![
                anomaly_view(
                    AnomalyRule::CtimeBeforeMtime,
                    Severity::Medium,
                    "Change time ("@ + disp(c) + ") is before modification time ("@ + disp(m)
                        + ")"@,
                    seq![MacbType::Changed, MacbType::Modified],
                ),
            ]
        } else {
            seq![]
        },
        _ => seq![],
    }
}

/// The present timestamps of a record, in M, A, C, B order.
pub open spec fn present_timestamps(r: RecordView) -> Seq<Timestamp> {
    opt_seq(r.mtime) + opt_seq(r.atime) + opt_seq(r.ctime) + opt_seq(r.btime)
}

pub open spec fn opt_seq(t: Option<Timestamp>) -> Seq<Timestamp> {
    match t {
        Some(v) => seq![v],
        None => seq![],
    }
}

/// At least two timestamps are present and all present ones are the same instant.
pub open spec fn all_timestamps_equal_spec(r: RecordView) -> bool {
    let p = present_timestamps(r);
    p.len() >= 2 && forall|i: int| 0 <= i < p.len() ==> #[trigger] p[i] == p[0]
}

pub open spec fn rule_all_equal(r: RecordView) -> Seq<AnomalyView> {
    if all_timestamps_equal_spec(r) {
        seq![
            anomaly_view(
                AnomalyRule::AllTimestampsEqual,
                Severity::Low,
                "All available MACB timestamps are identical"@,
                seq![MacbType::Modified, MacbType::Accessed, MacbType::Changed, MacbType::Born],
            ),
        ]
    } else {
        seq![]
    }
}

pub open spec fn is_epoch_zero_spec(t: Option<Timestamp>) -> bool {
    match t {
        Some(v) => v.spec_secs() == 0,
        None => false,
    }
}

pub open spec fn zero_kind(t: Option<Timestamp>, kind: MacbType) -> Seq<MacbType> {
    if is_epoch_zero_spec(t) {
        seq![kind]
    } else {
        seq![]
    }
}

/// The kinds whose timestamp is at Unix second zero, in M, A, C, B order.
pub open spec fn zero_timestamp_types_spec(r: RecordView) -> Seq<MacbType> {
    zero_kind(r.mtime, MacbType::Modified) + zero_kind(r.atime, MacbType::Accessed) + zero_kind(
        r.ctime,
        MacbType::Changed,
    ) + zero_kind(r.btime, MacbType::Born)
}

pub open spec fn has_zero_timestamp_spec(r: RecordView) -> bool {
    is_epoch_zero_spec(r.mtime) || is_epoch_zero_spec(r.atime) || is_epoch_zero_spec(r.ctime)
        || is_epoch_zero_spec(r.btime)
}

pub open spec fn rule_zero(r: RecordView) -> Seq<AnomalyView> {
    if has_zero_timestamp_spec(r) {
        seq![
            anomaly_view(
                AnomalyRule::ZeroTimestamps,
                Severity::Medium,
                "One or more timestamps are at Unix epoch zero"@,
                zero_timestamp_types_spec(r),
            ),
        ]
    } else {
        seq![]
    }
}

/// The anomalies the generic MACB rules find on a record when the check runs
/// at the instant (`now_secs`, `now_nanos`), in rule order.
pub open spec fn detect_spec(r: RecordView, now_secs: i64, now_nanos: u32) -> Seq<AnomalyView> {
    rule_btime_after_mtime(r) + rule_btime_after_atime(r) + rule_mtime_in_future(
        r,
        now_secs,
        now_nanos,
    ) + rule_btime_in_future(r, now_secs, now_nanos) + rule_ctime_before_mtime(r) + rule_all_equal(
        r,
    ) + rule_zero(r)
}

/// Some anomaly of the list has the given rule.
pub open spec fn has_rule(s: Seq<AnomalyView>, rule: AnomalyRule) -> bool {
    exists|i: int| 0 <= i < s.len() && #[trigger] s[i].rule == rule
}

/// Scanner anomalies first, then each detected anomaly whose rule is not yet
/// present.
pub open spec fn merge_spec(existing: Seq<AnomalyView>, detected: Seq<AnomalyView>) -> Seq<
    AnomalyView,
>
    decreases detected.len(),
{
    if detected.len() == 0 {
        existing
    } else {
        let m = merge_spec(existing, detected.drop_last());
        if has_rule(m, detected.last().rule) {
            m
        } else {
            m.push(detected.last())
        }
    }
}

fn is_later(left: Timestamp, right: Timestamp) -> (r: bool)
    ensures
        r == is_later_spec(left, right),
{
    (left.secs() as i128) > (right.secs() as i128) + 1
}

fn after(t: Timestamp, now_secs: i64, now_nanos: u32) -> (r: bool)
    ensures
        r == after_instant(t, now_secs, now_nanos),
{
    t.secs() > now_secs || (t.secs() == now_secs && t.nanos() > now_nanos)
}

/// `prefix` + display(t) + `suffix`.
fn around(prefix: &str, t: Timestamp, suffix: &str) -> (r: String)
    ensures
        r@ == prefix@ + disp(t) + suffix@,
{
    let mut s = String::from_str(prefix);
    let shown = t.display();
    s.append(shown.as_str());
    s.append(suffix);
    s
}

fn make_anomaly(
    rule: AnomalyRule,
    severity: Severity,
    description: String,
    involved: Vec<MacbType>,
) -> (r: Anomaly)
    ensures
        r@ == anomaly_view(rule, severity, description@, involved@),
{
    Anomaly { rule, severity, description, timestamps_involved: involved }
}

fn one_kind(kind: MacbType) -> (r: Vec<MacbType>)
    ensures
        r@ == seq![kind],
{
    let mut v: Vec<MacbType> = Vec::new();
    v.push(kind);
    v
}

fn two_kinds(a: MacbType, b: MacbType) -> (r: Vec<MacbType>)
    ensures
        r@ == seq![a, b],
{
    let mut v: Vec<MacbType> = Vec::new();
    v.push(a);
    v.push(b);
    v
}

fn all_timestamps_equal(record: &MacbRecord) -> (r: bool)
    ensures
        r == all_timestamps_equal_spec(record@),
{
    let mut present: Vec<Timestamp> = Vec::new();
    if let Some(t) = record.mtime {
        present.push(t);
    }
    if let Some(t) = record.atime {
        present.push(t);
    }
    if let Some(t) = record.ctime {
        present.push(t);
    }
    if let Some(t) = record.btime {
        present.push(t);
    }
    proof {
        let r = record@;
        assert(present@ =~= present_timestamps(r));
    }
    if present.len() < 2 {
        return false;
    }
    let first = present[0];
    let mut i: usize = 1;
    while i < present.len()
        invariant
            1 <= i <= present.len(),
            present.len() >= 2,
            first == present@[0],
            present@ == present_timestamps(record@),
            forall|j: int| 0 <= j < i ==> #[trigger] present@[j] == present@[0],
        decreases present.len() - i,
    {
        if present[i] != first {
            return false;
        }
        i += 1;
    }
    true
}

fn is_epoch_zero(t: Option<Timestamp>) -> (r: bool)
    ensures
        r == is_epoch_zero_spec(t),
{
    match t {
        Some(v) => v.secs() == 0,
        None => false,
    }
}

fn zero_timestamp_types(record: &MacbRecord) -> (r: Vec<MacbType>)
    ensures
        r@ == zero_timestamp_types_spec(record@),
{
    let mut types: Vec<MacbType> = Vec::new();
    if is_epoch_zero(record.mtime) {
        types.push(MacbType::Modified);
    }
    if is_epoch_zero(record.atime) {
        types.push(MacbType::Accessed);
    }
    if is_epoch_zero(record.ctime) {
        types.push(MacbType::Changed);
    }
    if is_epoch_zero(record.btime) {
        types.push(MacbType::Born);
    }
    assert(types@ =~= zero_timestamp_types_spec(record@));
    types
}

fn rule_btime_after_mtime_exec(record: &MacbRecord) -> (r: Vec<Anomaly>)
    ensures
        anomalies_view(r@) == rule_btime_after_mtime(record@),
{
    let mut out: Vec<Anomaly> = Vec::new();
    if let (Some(btime), Some(mtime)) = (record.btime, record.mtime) {
        if is_later(btime, mtime) {
            let d1 = around("Birth time (", btime, ") is after modification time (");
            let d2 = around(d1.as_str(), mtime, ")");
            out.push(
                make_anomaly(
                    AnomalyRule::BtimeAfterMtime,
                    Severity::High,
                    d2,
                    two_kinds(MacbType::Born, MacbType::Modified),
                ),
            );
        }
    }
    assert(anomalies_view(out@) =~= rule_btime_after_mtime(record@));
    out
}

fn rule_btime_after_atime_exec(record: &MacbRecord) -> (r: Vec<Anomaly>)
    ensures
        anomalies_view(r@) == rule_btime_after_atime(record@),
{
    let mut out: Vec<Anomaly> = Vec::new();
    if let (Some(btime), Some(atime)) = (record.btime, record.atime) {
        if is_later(btime, atime) {
            let d1 = around("Birth time (", btime, ") is after access time (");
            let d2 = around(d1.as_str(), atime, ")");
            out.push(
                make_anomaly(
                    AnomalyRule::BtimeAfterAtime,
                    Severity::Medium,
                    d2,
                    two_kinds(MacbType::Born, MacbType::Accessed),
                ),
            );
        }
    }
    assert(anomalies_view(out@) =~= rule_btime_after_atime(record@));
    out
}

fn rule_mtime_in_future_exec(record: &MacbRecord, now_secs: i64, now_nanos: u32) -> (r: Vec<
    Anomaly,
>)
    ensures
        anomalies_view(r@) == rule_mtime_in_future(record@, now_secs, now_nanos),
{
    let mut out: Vec<Anomaly> = Vec::new();
    if let Some(mtime) = record.mtime {
        if after(mtime, now_secs, now_nanos) {
            let d = around("Modification time (", mtime, ") is in the future");
            out.push(
                make_anomaly(AnomalyRule::MtimeInFuture, Severity::High, d, one_kind(MacbType::Modified)),
            );
        }
    }
    assert(anomalies_view(out@) =~= rule_mtime_in_future(record@, now_secs, now_nanos));
    out
}

fn rule_btime_in_future_exec(record: &MacbRecord, now_secs: i64, now_nanos: u32) -> (r: Vec<
    Anomaly,
>)
    ensures
        anomalies_view(r@) == rule_btime_in_future(record@, now_secs, now_nanos),
{
    let mut out: Vec<Anomaly> = Vec::new();
    if let Some(btime) = record.btime {
        if after(btime, now_secs, now_nanos) {
            let d = around("Birth time (", btime, ") is in the future");
            out.push(
                make_anomaly(AnomalyRule::BtimeInFuture, Severity::High, d, one_kind(MacbType::Born)),
            );
        }
    }
    assert(anomalies_view(out@) =~= rule_btime_in_future(record@, now_secs, now_nanos));
    out
}

fn rule_ctime_before_mtime_exec(record: &MacbRecord) -> (r: Vec<Anomaly>)
    ensures
        anomalies_view(r@) == rule_ctime_before_mtime(record@),
{
    let mut out: Vec<Anomaly> = Vec::new();
    if let (Some(ctime), Some(mtime)) = (record.ctime, record.mtime) {
        if is_later(mtime, ctime) {
            let d1 = around("Change time (", ctime, ") is before modification time (");
            let d2 = around(d1.as_str(), mtime, ")");
            out.push(
                make_anomaly(
                    AnomalyRule::CtimeBeforeMtime,
                    Severity::Medium,
                    d2,
                    two_kinds(MacbType::Changed, MacbType::Modified),
                ),
            );
        }
    }
    assert(anomalies_view(out@) =~= rule_ctime_before_mtime(record@));
    out
}

fn rule_all_equal_exec(record: &MacbRecord) -> (r: Vec<Anomaly>)
    ensures
        anomalies_view(r@) == rule_all_equal(record@),
{
    let mut out: Vec<Anomaly> = Vec::new();
    if all_timestamps_equal(record) {
        let mut kinds: Vec<MacbType> = Vec::new();
        kinds.push(MacbType::Modified);
        kinds.push(MacbType::Accessed);
        kinds.push(MacbType::Changed);
        kinds.push(MacbType::Born);
        assert(kinds@ =~= seq![
            MacbType::Modified,
            MacbType::Accessed,
            MacbType::Changed,
            MacbType::Born,
        ]);
        out.push(
            make_anomaly(
                AnomalyRule::AllTimestampsEqual,
                Severity::Low,
                String::from_str("All available MACB timestamps are identical"),
                kinds,
            ),
        );
    }
    assert(anomalies_view(out@) =~= rule_all_equal(record@));
    out
}

fn rule_zero_exec(record: &MacbRecord) -> (r: Vec<Anomaly>)
    ensures
        anomalies_view(r@) == rule_zero(record@),
{
    let mut out: Vec<Anomaly> = Vec::new();
    if is_epoch_zero(record.mtime) || is_epoch_zero(record.atime) || is_epoch_zero(record.ctime)
        || is_epoch_zero(record.btime) {
        out.push(
            make_anomaly(
                AnomalyRule::ZeroTimestamps,
                Severity::Medium,
                String::from_str("One or more timestamps are at Unix epoch zero"),
                zero_timestamp_types(record),
            ),
        );
    }
    assert(anomalies_view(out@) =~= rule_zero(record@));
    out
}

proof fn lemma_view_concat(a: Seq<Anomaly>, b: Seq<Anomaly>)
    ensures
        anomalies_view(a + b) == anomalies_view(a) + anomalies_view(b),
{
    assert(anomalies_view(a + b) =~= anomalies_view(a) + anomalies_view(b));
}

/// Appends `more` to `acc`.
fn extend(acc: &mut Vec<Anomaly>, more: Vec<Anomaly>)
    ensures
        anomalies_view(final(acc)@) == anomalies_view(old(acc)@) + anomalies_view(more@),
{
    let mut more = more;
    proof {
        lemma_view_concat(old(acc)@, more@);
    }
    acc.append(&mut more);
}

/// Runs the generic MACB rules on a record, taking "now" to be
/// (`now_secs`, `now_nanos`).
pub fn detect_anomalies_at(record: &MacbRecord, now_secs: i64, now_nanos: u32) -> (r: Vec<
    Anomaly,
>)
    ensures
        anomalies_view(r@) == detect_spec(record@, now_secs, now_nanos),
{
    let mut anomalies = rule_btime_after_mtime_exec(record);
    extend(&mut anomalies, rule_btime_after_atime_exec(record));
    extend(&mut anomalies, rule_mtime_in_future_exec(record, now_secs, now_nanos));
    extend(&mut anomalies, rule_btime_in_future_exec(record, now_secs, now_nanos));
    extend(&mut anomalies, rule_ctime_before_mtime_exec(record));
    extend(&mut anomalies, rule_all_equal_exec(record));
    extend(&mut anomalies, rule_zero_exec(record));
    anomalies
}

/// Runs the generic MACB rules on a record against the current clock. The
/// clock decides only the two "in the future" rules; whatever it reads, the
/// result is what the rules give at some valid instant.
pub fn detect_anomalies(record: &MacbRecord) -> (r: Vec<Anomaly>)
    ensures
        exists|now_secs: i64, now_nanos: u32|
            chrono_utc_valid(now_secs, now_nanos) && anomalies_view(r@) == detect_spec(
                record@,
                now_secs,
                now_nanos,
            ),
{
    let (now_secs, now_nanos) = utc_now();
    let r = detect_anomalies_at(record, now_secs, now_nanos);
    assert(chrono_utc_valid(now_secs, now_nanos) && anomalies_view(r@) == detect_spec(
        record@,
        now_secs,
        now_nanos,
    ));
    r
}

/// Merges scanner-detected anomalies (e.g. NTFS SI/FN) with those of the
/// generic MACB rules: the scanner's are kept, and a detected anomaly is added
/// only when its rule is not already present.
pub fn merge_anomalies(existing: Vec<Anomaly>, detected: Vec<Anomaly>) -> (r: Vec<Anomaly>)
    ensures
        anomalies_view(r@) == merge_spec(anomalies_view(existing@), anomalies_view(detected@)),
{
    let ghost dv = anomalies_view(detected@);
    let ghost ev = anomalies_view(existing@);
    let mut merged = existing;
    let ghost mut k: int = 0;
    for anomaly in it: detected.into_iter()
        invariant
            k == it.index(),
            it.seq() == detected@,
            anomalies_view(merged@) == merge_spec(ev, dv.take(k)),
            dv == anomalies_view(detected@),
    {
        proof {
            assert(dv.take(k + 1).drop_last() =~= dv.take(k));
            assert(dv.take(k + 1).last() == anomaly@);
        }
        let present = has_rule_exec(&merged, anomaly.rule);
        if !present {
            merged.push(anomaly);
            assert(anomalies_view(merged@) =~= merge_spec(ev, dv.take(k)).push(
                dv.take(k + 1).last(),
            ));
        }
        proof {
            k = k + 1;
        }
    }
    assert(dv.take(dv.len() as int) =~= dv);
    merged
}

fn has_rule_exec(anomalies: &Vec<Anomaly>, rule: AnomalyRule) -> (r: bool)
    ensures
        r == has_rule(anomalies_view(anomalies@), rule),
{
    let ghost v = anomalies_view(anomalies@);
    let mut i: usize = 0;
    while i < anomalies.len()
        invariant
            i <= anomalies.len(),
            v == anomalies_view(anomalies@),
            forall|j: int| 0 <= j < i ==> (#[trigger] v[j]).rule != rule,
        decreases anomalies.len() - i,
    {
        if anomalies[i].rule == rule {
            assert(v[i as int].rule == rule);
            return true;
        }
        i += 1;
    }
    false
}

/// A record with its anomalies replaced by the merge of the scanner's
/// anomalies and those the generic rules find at the instant given.
pub open spec fn annotated_spec(r: RecordView, now_secs: i64, now_nanos: u32) -> RecordView {
    RecordView {
        anomalies: merge_spec(r.anomalies, detect_spec(r, now_secs, now_nanos)),
        ..r
    }
}

/// `new` is `old` annotated by the generic rules at some valid instant.
pub open spec fn annotated_at_some_instant(old: RecordView, new: RecordView) -> bool {
    exists|now_secs: i64, now_nanos: u32|
        chrono_utc_valid(now_secs, now_nanos) && new == annotated_spec(old, now_secs, now_nanos)
}

/// Annotates one record: the anomalies it carries (from the scanner) are kept
/// and those of the generic MACB rules are merged in.
fn annotate_record(rec: MacbRecord) -> (r: MacbRecord)
    ensures
        annotated_at_some_instant(rec@, r@),
{
    let ghost old_view = rec@;
    let (now_secs, now_nanos) = utc_now();
    let detected = detect_anomalies_at(&rec, now_secs, now_nanos);
    let MacbRecord {
        path,
        inode,
        mtime,
        atime,
        ctime,
        btime,
        size,
        mode,
        uid,
        gid,
        md5,
        sha256,
        deleted,
        is_dir,
        anomalies,
    } = rec;
    let merged = merge_anomalies(anomalies, detected);
    let out = MacbRecord {
        path,
        inode,
        mtime,
        atime,
        ctime,
        btime,
        size,
        mode,
        uid,
        gid,
        md5,
        sha256,
        deleted,
        is_dir,
        anomalies: merged,
    };
    assert(chrono_utc_valid(now_secs, now_nanos) && out@ == annotated_spec(
        old_view,
        now_secs,
        now_nanos,
    ));
    out
}

/// Annotates every record, in order: scanner anomalies are kept and the
/// generic MACB rules fill the gaps. Each record is checked against the clock
/// as read when it is reached.
pub fn annotate_records(records: Vec<MacbRecord>) -> (r: Vec<MacbRecord>)
    ensures
        r.len() == records.len(),
        forall|i: int|
            0 <= i < r.len() ==> annotated_at_some_instant(records@[i]@, #[trigger] r@[i]@),
{
    let ghost input = records@;
    let mut out: Vec<MacbRecord> = Vec::new();
    for rec in it: records.into_iter()
        invariant
            it.seq() == input,
            out.len() == it.index(),
            forall|i: int|
                0 <= i < out.len() ==> annotated_at_some_instant(input[i]@, #[trigger] out@[i]@),
    {
        let annotated = annotate_record(rec);
        out.push(annotated);
    }
    out
}

/// The scanner's anomalies stay first and unchanged when the generic ones are
/// merged in.
pub proof fn lemma_merge_keeps_existing(existing: Seq<AnomalyView>, detected: Seq<AnomalyView>)
    ensures
        merge_spec(existing, detected).len() >= existing.len(),
        merge_spec(existing, detected).take(existing.len() as int) == existing,
    decreases detected.len(),
{
    if detected.len() > 0 {
        lemma_merge_keeps_existing(existing, detected.drop_last());
        let m = merge_spec(existing, detected.drop_last());
        assert(m.push(detected.last()).take(existing.len() as int) =~= m.take(
            existing.len() as int,
        ));
    }
}

/// Every rule that the generic detection found is present after the merge.
pub proof fn lemma_merge_covers_detected(existing: Seq<AnomalyView>, detected: Seq<AnomalyView>)
    ensures
        forall|j: int|
            0 <= j < detected.len() ==> has_rule(
                merge_spec(existing, detected),
                #[trigger] detected[j].rule,
            ),
    decreases detected.len(),
{
    if detected.len() > 0 {
        let d = detected.drop_last();
        lemma_merge_covers_detected(existing, d);
        let m = merge_spec(existing, d);
        let mm = merge_spec(existing, detected);
        assert forall|j: int| 0 <= j < detected.len() implies has_rule(
            mm,
            #[trigger] detected[j].rule,
        ) by {
            if j < detected.len() - 1 {
                assert(d[j] == detected[j]);
                assert(has_rule(m, d[j].rule));
                let w = choose|i: int| 0 <= i < m.len() && #[trigger] m[i].rule == d[j].rule;
                if !has_rule(m, detected.last().rule) {
                    assert(mm[w] == m[w]);
                }
            } else {
                if !has_rule(m, detected.last().rule) {
                    assert(mm[m.len() as int] == detected.last());
                }
            }
        }
    }
}

/// No rule appears twice in a list of anomalies.
pub open spec fn rules_unique(s: Seq<AnomalyView>) -> bool {
    forall|i: int, j: int| 0 <= i < j < s.len() ==> #[trigger] s[i].rule != #[trigger] s[j].rule
}

/// Merging never introduces a second anomaly of a rule already present.
pub proof fn lemma_merge_rules_unique(existing: Seq<AnomalyView>, detected: Seq<AnomalyView>)
    requires
        rules_unique(existing),
    ensures
        rules_unique(merge_spec(existing, detected)),
    decreases detected.len(),
{
    if detected.len() > 0 {
        lemma_merge_rules_unique(existing, detected.drop_last());
        let m = merge_spec(existing, detected.drop_last());
        if !has_rule(m, detected.last().rule) {
            let mm = m.push(detected.last());
            assert forall|i: int, j: int| 0 <= i < j < mm.len() implies #[trigger] mm[i].rule
                != #[trigger] mm[j].rule by {
                if j == m.len() {
                    assert(mm[i] == m[i]);
                    if mm[i].rule == mm[j].rule {
                        assert(m[i].rule == detected.last().rule);
                    }
                } else {
                    assert(mm[i] == m[i] && mm[j] == m[j]);
                }
            }
        }
    }
}

} // verus!
