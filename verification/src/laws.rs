use vstd::prelude::*;

use crate::anomalies::{detect_spec, has_rule, is_later_spec};
use crate::hash::hash_algorithm_spec;
use crate::model::{
    events_view, has_anomaly_at_or_above_spec, latest_timestamp_spec, ts_le, AnomalyRule,
    EventView, MacbRecord, MacbType, RecordView, Severity, SortField, TimelineEvent,
};
use crate::orders::{lemma_ts_total, opt_ts_lt, EventOrder, RecordOrder};
use crate::sort::{is_stable_sort, stable_sort_witness, KeyOrder};
use crate::text::ascii_lower_spec;
use crate::time_filter::{contains_spec, is_active_spec, record_matches_spec, TimeRange};
use crate::timeline::{
    event_order_for, events_of_kind, is_macb_field, kind_event, present_count, record_events,
    record_order_for, sort_field_to_macb_spec, timeline_sorted_spec, timeline_spec,
};
use crate::tsk::{ntfs_mismatch_spec, timestamps_differ_spec, TskMetaTimes, TSK_FS_TYPE_NTFS};

verus! {

/// Every event kept for a MACB kind is of that kind.
pub proof fn lemma_events_of_kind_only_kind(s: Seq<EventView>, kind: MacbType)
    ensures
        forall|i: int|
            0 <= i < events_of_kind(s, kind).len() ==> (#[trigger] events_of_kind(s, kind)[i]).event_type
                == kind,
    decreases s.len(),
{
    if s.len() > 0 {
        lemma_events_of_kind_only_kind(s.drop_last(), kind);
    }
}

/// A timeline sorted by a MACB field (`--sort mtime`, ...) holds only events of
/// that kind.
pub proof fn lemma_macb_sort_keeps_only_its_kind(
    sort: SortField,
    input: Seq<TimelineEvent>,
    output: Seq<TimelineEvent>,
)
    requires
        is_macb_field(sort),
        timeline_sorted_spec(sort, input, output),
    ensures
        forall|i: int| 0 <= i < output.len() ==> (#[trigger] output[i])@.event_type
            == sort_field_to_macb_spec(sort),
{
    let kind = sort_field_to_macb_spec(sort);
    let kept = choose|kept: Seq<TimelineEvent>|
        events_view(kept) == events_of_kind(events_view(input), kind) && is_stable_sort(
            EventOrder::TimePath,
            kept,
            output,
        );
    let perm = choose|perm: Seq<int>| stable_sort_witness(EventOrder::TimePath, kept, output, perm);
    lemma_events_of_kind_only_kind(events_view(input), kind);
    assert forall|i: int| 0 <= i < output.len() implies (#[trigger] output[i])@.event_type == kind by {
        let k = perm[i];
        assert(output[i] == kept[k]);
        assert(events_view(kept)[k] == kept[k]@);
        assert(events_of_kind(events_view(input), kind)[k].event_type == kind);
    }
}

/// Every timeline order but `Path` puts events in chronological order: the
/// default `Timestamp` sort and the MACB-field sorts.
pub proof fn lemma_timeline_sort_chronological(
    sort: SortField,
    input: Seq<TimelineEvent>,
    output: Seq<TimelineEvent>,
)
    requires
        sort != SortField::Path,
        timeline_sorted_spec(sort, input, output),
    ensures
        forall|i: int, j: int|
            0 <= i < j < output.len() ==> ts_le(
                (#[trigger] output[i])@.timestamp,
                (#[trigger] output[j])@.timestamp,
            ),
{
    let o = event_order_for(sort);
    if is_macb_field(sort) {
        let kind = sort_field_to_macb_spec(sort);
        let kept = choose|kept: Seq<TimelineEvent>|
            events_view(kept) == events_of_kind(events_view(input), kind) && is_stable_sort(
                EventOrder::TimePath,
                kept,
                output,
            );
        let perm = choose|perm: Seq<int>|
            stable_sort_witness(EventOrder::TimePath, kept, output, perm);
        assert forall|i: int, j: int| 0 <= i < j < output.len() implies ts_le(
            (#[trigger] output[i])@.timestamp,
            (#[trigger] output[j])@.timestamp,
        ) by {
            assert(EventOrder::TimePath.le(output[i], output[j]));
            lemma_ts_total(output[i]@.timestamp, output[j]@.timestamp);
        }
    } else {
        assert(o == EventOrder::TimeLabelPath);
        let perm = choose|perm: Seq<int>| stable_sort_witness(o, input, output, perm);
        assert forall|i: int, j: int| 0 <= i < j < output.len() implies ts_le(
            (#[trigger] output[i])@.timestamp,
            (#[trigger] output[j])@.timestamp,
        ) by {
            assert(o.le(output[i], output[j]));
            lemma_ts_total(output[i]@.timestamp, output[j]@.timestamp);
        }
    }
}

/// `scan --sort timestamp` orders records by their latest MACB timestamp,
/// records without any timestamp last.
pub proof fn lemma_scan_timestamp_sort_by_latest(input: Seq<MacbRecord>, output: Seq<MacbRecord>)
    requires
        is_stable_sort(record_order_for(SortField::Timestamp), input, output),
    ensures
        forall|i: int, j: int|
            0 <= i < j < output.len() ==> !opt_ts_lt(
                latest_timestamp_spec((#[trigger] output[j])@),
                latest_timestamp_spec((#[trigger] output[i])@),
            ),
{
    let o = RecordOrder::Latest;
    let perm = choose|perm: Seq<int>| stable_sort_witness(o, input, output, perm);
    assert forall|i: int, j: int| 0 <= i < j < output.len() implies !opt_ts_lt(
        latest_timestamp_spec((#[trigger] output[j])@),
        latest_timestamp_spec((#[trigger] output[i])@),
    ) by {
        assert(o.le(output[i], output[j]));
    }
}

/// Each event of a record carries the record's path and anomalies, so the
/// anomaly filter keeps a record's events exactly when it keeps the record.
pub proof fn lemma_events_inherit_record(r: RecordView, min: Severity)
    ensures
        forall|i: int|
            0 <= i < record_events(r).len() ==> {
                let e = #[trigger] record_events(r)[i];
                &&& e.path == r.path
                &&& e.anomalies == r.anomalies
                &&& has_anomaly_at_or_above_spec(e.anomalies, min)
                    == has_anomaly_at_or_above_spec(r.anomalies, min)
            },
{
    let m = kind_event(r, MacbType::Modified);
    let a = kind_event(r, MacbType::Accessed);
    let c = kind_event(r, MacbType::Changed);
    let b = kind_event(r, MacbType::Born);
    let ev = record_events(r);
    assert(ev =~= m + a + c + b);
    assert forall|i: int| 0 <= i < ev.len() implies (#[trigger] ev[i]).path == r.path
        && ev[i].anomalies == r.anomalies by {
        if i < m.len() {
            assert(ev[i] == m[i]);
        } else if i < m.len() + a.len() {
            assert(ev[i] == a[i - m.len()]);
        } else if i < m.len() + a.len() + c.len() {
            assert(ev[i] == c[i - m.len() - a.len()]);
        } else {
            assert(ev[i] == b[i - m.len() - a.len() - c.len()]);
        }
    }
}

/// A record has one event per MACB timestamp it holds.
pub proof fn lemma_record_event_count(r: RecordView)
    ensures
        record_events(r).len() == present_count(r),
{
}

/// The number of MACB timestamps held by a sequence of records.
pub open spec fn total_present(rs: Seq<RecordView>) -> nat
    decreases rs.len(),
{
    if rs.len() == 0 {
        0
    } else {
        total_present(rs.drop_last()) + present_count(rs.last())
    }
}

/// The timeline has exactly one event per MACB timestamp of the records.
pub proof fn lemma_timeline_event_count(rs: Seq<RecordView>)
    ensures
        timeline_spec(rs).len() == total_present(rs),
    decreases rs.len(),
{
    if rs.len() > 0 {
        lemma_timeline_event_count(rs.drop_last());
    }
}

/// With an active range, a record is kept by the time filter exactly when one
/// of its timeline events is kept by it.
pub proof fn lemma_record_kept_iff_an_event_kept(range: TimeRange, r: RecordView)
    requires
        is_active_spec(range),
    ensures
        record_matches_spec(range, r) <==> exists|i: int|
            0 <= i < record_events(r).len() && contains_spec(
                range,
                (#[trigger] record_events(r)[i]).timestamp,
            ),
{
    let m = kind_event(r, MacbType::Modified);
    let a = kind_event(r, MacbType::Accessed);
    let c = kind_event(r, MacbType::Changed);
    let b = kind_event(r, MacbType::Born);
    let ev = record_events(r);
    assert(ev =~= m + a + c + b);
    if record_matches_spec(range, r) {
        if r.mtime is Some && contains_spec(range, r.mtime->0) {
            assert(ev[0].timestamp == r.mtime->0);
        } else if r.atime is Some && contains_spec(range, r.atime->0) {
            assert(ev[m.len() as int].timestamp == r.atime->0);
        } else if r.ctime is Some && contains_spec(range, r.ctime->0) {
            assert(ev[(m.len() + a.len()) as int].timestamp == r.ctime->0);
        } else {
            assert(ev[(m.len() + a.len() + c.len()) as int].timestamp == r.btime->0);
        }
    }
    if exists|i: int| 0 <= i < ev.len() && contains_spec(range, (#[trigger] ev[i]).timestamp) {
        let i = choose|i: int| 0 <= i < ev.len() && contains_spec(range, (#[trigger] ev[i]).timestamp);
        if i < m.len() {
            assert(ev[i] == m[i]);
        } else if i < m.len() + a.len() {
            assert(ev[i] == a[i - m.len()]);
        } else if i < m.len() + a.len() + c.len() {
            assert(ev[i] == c[i - m.len() - a.len()]);
        } else {
            assert(ev[i] == b[i - m.len() - a.len() - c.len()]);
        }
    }
}

/// A missing birth time is not an anomaly: no birth-time rule fires.
pub proof fn lemma_missing_btime_not_flagged(r: RecordView, now_secs: i64, now_nanos: u32)
    requires
        r.btime is None,
    ensures
        !has_rule(detect_spec(r, now_secs, now_nanos), AnomalyRule::BtimeAfterMtime),
        !has_rule(detect_spec(r, now_secs, now_nanos), AnomalyRule::BtimeAfterAtime),
        !has_rule(detect_spec(r, now_secs, now_nanos), AnomalyRule::BtimeInFuture),
{
    let d = detect_spec(r, now_secs, now_nanos);
    assert forall|i: int| 0 <= i < d.len() implies (#[trigger] d[i]).rule
        != AnomalyRule::BtimeAfterMtime && d[i].rule != AnomalyRule::BtimeAfterAtime && d[i].rule
        != AnomalyRule::BtimeInFuture by {
    }
}

/// Timestamps at most one second apart are never reported as out of order.
pub proof fn lemma_one_second_jitter_ignored(r: RecordView, now_secs: i64, now_nanos: u32)
    requires
        r.mtime is Some,
        r.ctime is Some,
        r.mtime->0.spec_secs() <= r.ctime->0.spec_secs() + 1,
    ensures
        !has_rule(detect_spec(r, now_secs, now_nanos), AnomalyRule::CtimeBeforeMtime),
{
    assert(!is_later_spec(r.mtime->0, r.ctime->0));
    let d = detect_spec(r, now_secs, now_nanos);
    assert forall|i: int| 0 <= i < d.len() implies (#[trigger] d[i]).rule
        != AnomalyRule::CtimeBeforeMtime by {
    }
}

/// A birth time at most one second after the modification or access time is
/// not reported as later than it.
pub proof fn lemma_birth_jitter_ignored(r: RecordView, now_secs: i64, now_nanos: u32)
    requires
        r.btime is Some,
        r.mtime is Some ==> r.btime->0.spec_secs() <= r.mtime->0.spec_secs() + 1,
        r.atime is Some ==> r.btime->0.spec_secs() <= r.atime->0.spec_secs() + 1,
    ensures
        !has_rule(detect_spec(r, now_secs, now_nanos), AnomalyRule::BtimeAfterMtime),
        !has_rule(detect_spec(r, now_secs, now_nanos), AnomalyRule::BtimeAfterAtime),
{
    let d = detect_spec(r, now_secs, now_nanos);
    assert forall|i: int| 0 <= i < d.len() implies (#[trigger] d[i]).rule
        != AnomalyRule::BtimeAfterMtime && d[i].rule != AnomalyRule::BtimeAfterAtime by {}
}

/// NTFS time pairs within one second of each other raise no mismatch.
pub proof fn lemma_ntfs_jitter_ignored(si: TskMetaTimes, fname: TskMetaTimes)
    requires
        si.mtime - fname.mtime <= 1 && fname.mtime - si.mtime <= 1,
        si.crtime - fname.crtime <= 1 && fname.crtime - si.crtime <= 1,
        si.atime - fname.atime <= 1 && fname.atime - si.atime <= 1,
        si.ctime - fname.ctime <= 1 && fname.ctime - si.ctime <= 1,
    ensures
        ntfs_mismatch_spec(TSK_FS_TYPE_NTFS, Some((si, fname))) is None,
{
}

/// Whether two NTFS times disagree does not depend on which copy is first.
pub proof fn lemma_timestamps_differ_symmetric(left: i64, right: i64)
    ensures
        timestamps_differ_spec(left, right) == timestamps_differ_spec(right, left),
{
}

/// ASCII lower-casing twice is lower-casing once.
pub proof fn lemma_ascii_lower_idempotent(s: Seq<char>)
    ensures
        ascii_lower_spec(ascii_lower_spec(s)) == ascii_lower_spec(s),
{
    assert(ascii_lower_spec(ascii_lower_spec(s)) =~= ascii_lower_spec(s));
}

/// Hash algorithm names are read without regard to ASCII case.
pub proof fn lemma_hash_name_case_insensitive(value: Seq<char>)
    ensures
        hash_algorithm_spec(ascii_lower_spec(value)) == hash_algorithm_spec(value),
{
    lemma_ascii_lower_idempotent(value);
}

} // verus!
