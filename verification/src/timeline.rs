use vstd::prelude::*;

use crate::model::{
    clone_anomalies, has_anomaly_at_or_above, has_anomaly_at_or_above_spec,
    record_timestamp_spec, records_view, events_view, EventView, MacbRecord, MacbType,
    RecordView, Severity, SortField, TimelineEvent,
};
use crate::orders::{EventOrder, RecordOrder};
use crate::sort::{is_stable_sort, stable_sort};

verus! {

/// The event of one kind of a record, when that timestamp is present.
pub open spec fn kind_event(r: RecordView, kind: MacbType) -> Seq<EventView> {
    match record_timestamp_spec(r, kind) {
        Some(t) => seq![
            EventView { timestamp: t, event_type: kind, path: r.path, anomalies: r.anomalies },
        ],
        None => seq![],
    }
}

/// A record's events in M, A, C, B order.
pub open spec fn record_events(r: RecordView) -> Seq<EventView> {
    kind_event(r, MacbType::Modified) + kind_event(r, MacbType::Accessed) + kind_event(
        r,
        MacbType::Changed,
    ) + kind_event(r, MacbType::Born)
}

/// All events of the records, record by record.
pub open spec fn timeline_spec(rs: Seq<RecordView>) -> Seq<EventView>
    decreases rs.len(),
{
    if rs.len() == 0 {
        seq![]
    } else {
        timeline_spec(rs.drop_last()) + record_events(rs.last())
    }
}

/// Number of MACB timestamps a record holds.
pub open spec fn present_count(r: RecordView) -> nat {
    (if r.mtime is Some {
        1nat
    } else {
        0nat
    }) + (if r.atime is Some {
        1nat
    } else {
        0nat
    }) + (if r.ctime is Some {
        1nat
    } else {
        0nat
    }) + (if r.btime is Some {
        1nat
    } else {
        0nat
    })
}

fn push_kind_event(events: &mut Vec<TimelineEvent>, record: &MacbRecord, kind: MacbType)
    ensures
        events_view(final(events)@) == events_view(old(events)@) + kind_event(record@, kind),
{
    let ghost before = events_view(events@);
    if let Some(timestamp) = record.timestamp(kind) {
        events.push(
            TimelineEvent {
                timestamp,
                event_type: kind,
                path: record.path.clone(),
                anomalies: clone_anomalies(&record.anomalies),
            },
        );
    }
    assert(events_view(events@) =~= before + kind_event(record@, kind));
}

/// Flattens records into one event per present MACB timestamp, record by
/// record and M, A, C, B within a record.
pub fn build_timeline(records: &[MacbRecord]) -> (r: Vec<TimelineEvent>)
    ensures
        events_view(r@) == timeline_spec(records_view(records@)),
{
    let mut events: Vec<TimelineEvent> = Vec::new();
    let mut i: usize = 0;
    while i < records.len()
        invariant
            i <= records.len(),
            events_view(events@) == timeline_spec(records_view(records@.take(i as int))),
        decreases records.len() - i,
    {
        let ghost before = events_view(events@);
        let record = &records[i];
        push_kind_event(&mut events, record, MacbType::Modified);
        push_kind_event(&mut events, record, MacbType::Accessed);
        push_kind_event(&mut events, record, MacbType::Changed);
        push_kind_event(&mut events, record, MacbType::Born);
        proof {
            let rs = records_view(records@.take(i + 1));
            assert(rs.drop_last() =~= records_view(records@.take(i as int)));
            assert(rs.last() == records@[i as int]@);
            assert(events_view(events@) =~= before + record_events(records@[i as int]@));
        }
        i += 1;
    }
    assert(records@.take(records.len() as int) =~= records@);
    events
}

/// The events of the given kind, in order.
pub open spec fn events_of_kind(s: Seq<EventView>, kind: MacbType) -> Seq<EventView>
    decreases s.len(),
{
    if s.len() == 0 {
        seq![]
    } else if s.last().event_type == kind {
        events_of_kind(s.drop_last(), kind).push(s.last())
    } else {
        events_of_kind(s.drop_last(), kind)
    }
}

/// The MACB kind a sort field names; `Modified` for the other fields.
pub open spec fn sort_field_to_macb_spec(sort: SortField) -> MacbType {
    match sort {
        SortField::Mtime => MacbType::Modified,
        SortField::Atime => MacbType::Accessed,
        SortField::Ctime => MacbType::Changed,
        SortField::Btime => MacbType::Born,
        _ => MacbType::Modified,
    }
}

pub fn sort_field_to_macb(sort: SortField) -> (r: MacbType)
    ensures
        r == sort_field_to_macb_spec(sort),
{
    match sort {
        SortField::Mtime => MacbType::Modified,
        SortField::Atime => MacbType::Accessed,
        SortField::Ctime => MacbType::Changed,
        SortField::Btime => MacbType::Born,
        SortField::Path | SortField::Timestamp => MacbType::Modified,
    }
}

pub open spec fn is_macb_field(sort: SortField) -> bool {
    sort == SortField::Mtime || sort == SortField::Atime || sort == SortField::Ctime || sort
        == SortField::Btime
}

/// The event order a sort field uses.
pub open spec fn event_order_for(sort: SortField) -> EventOrder {
    match sort {
        SortField::Path => EventOrder::PathTimeLabel,
        SortField::Timestamp => EventOrder::TimeLabelPath,
        _ => EventOrder::TimePath,
    }
}

/// The record order a sort field uses.
pub open spec fn record_order_for(sort: SortField) -> RecordOrder {
    match sort {
        SortField::Path => RecordOrder::Path,
        SortField::Timestamp => RecordOrder::Latest,
        _ => RecordOrder::Kind(sort_field_to_macb_spec(sort)),
    }
}

/// Keeps the events of one kind, in order.
fn retain_kind(events: Vec<TimelineEvent>, kind: MacbType) -> (r: Vec<TimelineEvent>)
    ensures
        events_view(r@) == events_of_kind(events_view(events@), kind),
{
    let ghost input = events@;
    let mut out: Vec<TimelineEvent> = Vec::new();
    let ghost mut k: int = 0;
    for e in it: events.into_iter()
        invariant
            it.seq() == input,
            k == it.index(),
            events_view(out@) == events_of_kind(events_view(input.take(k)), kind),
    {
        proof {
            let t = events_view(input.take(k + 1));
            assert(t.drop_last() =~= events_view(input.take(k)));
            assert(t.last() == e@);
        }
        if e.event_type == kind {
            out.push(e);
            assert(events_view(out@) =~= events_of_kind(events_view(input.take(k)), kind).push(
                events_view(input.take(k + 1)).last(),
            ));
        }
        proof {
            k = k + 1;
        }
    }
    assert(input.take(input.len() as int) =~= input);
    out
}

/// `output` is `input` ordered for a sort field: `Path` and `Timestamp`
/// reorder every event; a MACB field keeps the events of its kind and orders
/// them by time, then path.
pub open spec fn timeline_sorted_spec(
    sort: SortField,
    input: Seq<TimelineEvent>,
    output: Seq<TimelineEvent>,
) -> bool {
    &&& is_macb_field(sort) ==> exists|kept: Seq<TimelineEvent>|
        events_view(kept) == events_of_kind(events_view(input), sort_field_to_macb_spec(sort))
            && is_stable_sort(EventOrder::TimePath, kept, output)
    &&& !is_macb_field(sort) ==> is_stable_sort(event_order_for(sort), input, output)
}

/// Orders the timeline. `Path`: by path, then time, then event label.
/// `Timestamp`: chronological, then event label, then path. A MACB field keeps
/// only events of that kind, ordered by time, then path. The sort is stable.
pub fn sort_timeline(events: &mut Vec<TimelineEvent>, sort: SortField)
    ensures
        timeline_sorted_spec(sort, old(events)@, final(events)@),
{
    let mut taken: Vec<TimelineEvent> = Vec::new();
    core::mem::swap(events, &mut taken);
    match sort {
        SortField::Path => {
            let sorted = stable_sort(&EventOrder::PathTimeLabel, taken);
            *events = sorted;
        },
        SortField::Timestamp => {
            let sorted = stable_sort(&EventOrder::TimeLabelPath, taken);
            *events = sorted;
        },
        SortField::Mtime | SortField::Atime | SortField::Ctime | SortField::Btime => {
            let macb = sort_field_to_macb(sort);
            let kept = retain_kind(taken, macb);
            let ghost kept_seq = kept@;
            let sorted = stable_sort(&EventOrder::TimePath, kept);
            *events = sorted;
            assert(events_view(kept_seq) == events_of_kind(
                events_view(old(events)@),
                sort_field_to_macb_spec(sort),
            ) && is_stable_sort(EventOrder::TimePath, kept_seq, events@));
        },
    }
}

/// Orders records. `Path`: by path. `Timestamp`: by the latest MACB timestamp.
/// A MACB field: by that timestamp. Records missing the timestamp come last;
/// ties are broken by path; the sort is stable.
pub fn sort_records(records: &mut Vec<MacbRecord>, sort: SortField)
    ensures
        is_stable_sort(record_order_for(sort), old(records)@, final(records)@),
{
    let mut taken: Vec<MacbRecord> = Vec::new();
    core::mem::swap(records, &mut taken);
    let order = match sort {
        SortField::Path => RecordOrder::Path,
        SortField::Timestamp => RecordOrder::Latest,
        SortField::Mtime | SortField::Atime | SortField::Ctime | SortField::Btime => {
            RecordOrder::Kind(sort_field_to_macb(sort))
        },
    };
    let sorted = stable_sort(&order, taken);
    *records = sorted;
}

/// Records having an anomaly at least as severe as `min`, in order.
pub open spec fn records_with_anomaly(rs: Seq<RecordView>, min: Severity) -> Seq<RecordView>
    decreases rs.len(),
{
    if rs.len() == 0 {
        seq![]
    } else if has_anomaly_at_or_above_spec(rs.last().anomalies, min) {
        records_with_anomaly(rs.drop_last(), min).push(rs.last())
    } else {
        records_with_anomaly(rs.drop_last(), min)
    }
}

/// Events having an anomaly at least as severe as `min`, in order.
pub open spec fn events_with_anomaly(es: Seq<EventView>, min: Severity) -> Seq<EventView>
    decreases es.len(),
{
    if es.len() == 0 {
        seq![]
    } else if has_anomaly_at_or_above_spec(es.last().anomalies, min) {
        events_with_anomaly(es.drop_last(), min).push(es.last())
    } else {
        events_with_anomaly(es.drop_last(), min)
    }
}

/// With `anomalies_only`, keeps the records having an anomaly at least as
/// severe as `min_severity`; otherwise returns them all.
pub fn filter_records(records: Vec<MacbRecord>, anomalies_only: bool, min_severity: Severity) -> (r:
    Vec<MacbRecord>)
    ensures
        records_view(r@) == if anomalies_only {
            records_with_anomaly(records_view(records@), min_severity)
        } else {
            records_view(records@)
        },
{
    if !anomalies_only {
        return records;
    }
    let ghost input = records@;
    let mut out: Vec<MacbRecord> = Vec::new();
    let ghost mut k: int = 0;
    for rec in it: records.into_iter()
        invariant
            it.seq() == input,
            k == it.index(),
            records_view(out@) == records_with_anomaly(records_view(input.take(k)), min_severity),
    {
        proof {
            let t = records_view(input.take(k + 1));
            assert(t.drop_last() =~= records_view(input.take(k)));
            assert(t.last() == rec@);
        }
        if rec.has_anomaly_at_or_above(min_severity) {
            out.push(rec);
            assert(records_view(out@) =~= records_with_anomaly(
                records_view(input.take(k)),
                min_severity,
            ).push(records_view(input.take(k + 1)).last()));
        }
        proof {
            k = k + 1;
        }
    }
    assert(input.take(input.len() as int) =~= input);
    out
}

/// With `anomalies_only`, keeps the events having an anomaly at least as
/// severe as `min_severity`; otherwise returns them all.
pub fn filter_timeline(events: Vec<TimelineEvent>, anomalies_only: bool, min_severity: Severity) -> (r:
    Vec<TimelineEvent>)
    ensures
        events_view(r@) == if anomalies_only {
            events_with_anomaly(events_view(events@), min_severity)
        } else {
            events_view(events@)
        },
{
    if !anomalies_only {
        return events;
    }
    let ghost input = events@;
    let mut out: Vec<TimelineEvent> = Vec::new();
    let ghost mut k: int = 0;
    for e in it: events.into_iter()
        invariant
            it.seq() == input,
            k == it.index(),
            events_view(out@) == events_with_anomaly(events_view(input.take(k)), min_severity),
    {
        proof {
            let t = events_view(input.take(k + 1));
            assert(t.drop_last() =~= events_view(input.take(k)));
            assert(t.last() == e@);
        }
        if has_anomaly_at_or_above(&e.anomalies, min_severity) {
            out.push(e);
            assert(events_view(out@) =~= events_with_anomaly(
                events_view(input.take(k)),
                min_severity,
            ).push(events_view(input.take(k + 1)).last()));
        }
        proof {
            k = k + 1;
        }
    }
    assert(input.take(input.len() as int) =~= input);
    out
}

} // verus!
