use vstd::prelude::*;

use crate::model::{
    latest_timestamp_spec, macb_label_rank, record_timestamp_spec, ts_lt, EventView, MacbRecord,
    MacbType, Timestamp, TimelineEvent,
};
use crate::paths::{
    keys_lt, lemma_keys_asym, lemma_keys_irrefl, lemma_keys_total, lemma_keys_trans, path_compare,
    path_key, Comparison,
};
use crate::sort::KeyOrder;

verus! {

// Each order compares a tuple of canonical keys lexicographically; every key
// is strictly totally ordered, so "a before or equal to b" is a total preorder.
pub proof fn lemma_ts_total(a: Timestamp, b: Timestamp)
    ensures
        ts_lt(a, b) || ts_lt(b, a) || a == b,
        !ts_lt(a, a),
        ts_lt(a, b) ==> !ts_lt(b, a),
{
    Timestamp::lemma_eq_parts(a, b);
}

/// A present instant comes before a missing one; present ones in time order.
pub open spec fn opt_ts_lt(a: Option<Timestamp>, b: Option<Timestamp>) -> bool {
    match (a, b) {
        (Some(x), Some(y)) => ts_lt(x, y),
        (Some(_), None) => true,
        _ => false,
    }
}

pub proof fn lemma_opt_ts(a: Option<Timestamp>, b: Option<Timestamp>, c: Option<Timestamp>)
    ensures
        opt_ts_lt(a, b) || opt_ts_lt(b, a) || a == b,
        !opt_ts_lt(a, a),
        opt_ts_lt(a, b) ==> !opt_ts_lt(b, a),
        opt_ts_lt(a, b) && opt_ts_lt(b, c) ==> opt_ts_lt(a, c),
{
    if let (Some(x), Some(y)) = (a, b) {
        lemma_ts_total(x, y);
    }
    if let Some(x) = a {
        lemma_ts_total(x, x);
    }
}

pub proof fn lemma_keys_props(a: Seq<Seq<u32>>, b: Seq<Seq<u32>>, c: Seq<Seq<u32>>)
    ensures
        keys_lt(a, b) || keys_lt(b, a) || a == b,
        !keys_lt(a, a),
        keys_lt(a, b) ==> !keys_lt(b, a),
        keys_lt(a, b) && keys_lt(b, c) ==> keys_lt(a, c),
{
    lemma_keys_total(a, b);
    lemma_keys_irrefl(a);
    if keys_lt(a, b) {
        lemma_keys_asym(a, b);
        if keys_lt(b, c) {
            lemma_keys_trans(a, b, c);
        }
    }
}

/// Compares two instants.
pub fn ts_compare(a: &Timestamp, b: &Timestamp) -> (r: Comparison)
    ensures
        (r == Comparison::Less) == ts_lt(*a, *b),
        (r == Comparison::Greater) == ts_lt(*b, *a),
        (r == Comparison::Equal) == (*a == *b),
{
    proof {
        lemma_ts_total(*a, *b);
    }
    if a.lt(b) {
        Comparison::Less
    } else if b.lt(a) {
        Comparison::Greater
    } else {
        Comparison::Equal
    }
}

/// Compares optional instants: present before missing.
pub fn opt_ts_compare(a: Option<Timestamp>, b: Option<Timestamp>) -> (r: Comparison)
    ensures
        (r == Comparison::Less) == opt_ts_lt(a, b),
        (r == Comparison::Greater) == opt_ts_lt(b, a),
        (r == Comparison::Equal) == (a == b),
{
    proof {
        lemma_opt_ts(a, b, b);
    }
    match (a, b) {
        (Some(x), Some(y)) => ts_compare(&x, &y),
        (Some(_), None) => Comparison::Less,
        (None, Some(_)) => Comparison::Greater,
        (None, None) => Comparison::Equal,
    }
}

/// Orders of records.
#[derive(Debug, Clone, Copy, PartialEq, Eq, Structural)]
pub enum RecordOrder {
    /// By path.
    Path,
    /// By latest MACB timestamp (missing last), then path.
    Latest,
    /// By the timestamp of one kind (missing last), then path.
    Kind(MacbType),
}

/// The first key a record order compares.
pub open spec fn record_first_key(o: RecordOrder, r: MacbRecord) -> Option<Timestamp> {
    match o {
        RecordOrder::Path => None,
        RecordOrder::Latest => latest_timestamp_spec(r@),
        RecordOrder::Kind(k) => record_timestamp_spec(r@, k),
    }
}

/// Strict part of a record order.
pub open spec fn record_lt(o: RecordOrder, a: MacbRecord, b: MacbRecord) -> bool {
    let ka = record_first_key(o, a);
    let kb = record_first_key(o, b);
    opt_ts_lt(ka, kb) || (ka == kb && keys_lt(path_key(a.path@), path_key(b.path@)))
}

impl KeyOrder<MacbRecord> for RecordOrder {
    open spec fn le(&self, a: MacbRecord, b: MacbRecord) -> bool {
        !record_lt(*self, b, a)
    }

    proof fn lemma_total(&self, a: MacbRecord, b: MacbRecord) {
        lemma_opt_ts(record_first_key(*self, a), record_first_key(*self, b), record_first_key(*self, b));
        lemma_keys_props(path_key(a.path@), path_key(b.path@), path_key(b.path@));
    }

    proof fn lemma_trans(&self, a: MacbRecord, b: MacbRecord, c: MacbRecord) {
        let (ka, kb, kc) = (
            record_first_key(*self, a),
            record_first_key(*self, b),
            record_first_key(*self, c),
        );
        let (pa, pb, pc) = (path_key(a.path@), path_key(b.path@), path_key(c.path@));
        lemma_opt_ts(ka, kb, kc);
        lemma_opt_ts(kb, kc, ka);
        lemma_opt_ts(kc, ka, kb);
        lemma_opt_ts(ka, kc, kb);
        lemma_opt_ts(kc, kb, ka);
        lemma_opt_ts(kb, ka, kc);
        lemma_keys_props(pa, pb, pc);
        lemma_keys_props(pb, pc, pa);
        lemma_keys_props(pc, pa, pb);
        lemma_keys_props(pa, pc, pb);
        lemma_keys_props(pc, pb, pa);
        lemma_keys_props(pb, pa, pc);
    }

    fn le_exec(&self, a: &MacbRecord, b: &MacbRecord) -> (r: bool) {
        let (ka, kb) = match self {
            RecordOrder::Path => (None, None),
            RecordOrder::Latest => (a.latest_timestamp(), b.latest_timestamp()),
            RecordOrder::Kind(k) => (a.timestamp(*k), b.timestamp(*k)),
        };
        match opt_ts_compare(kb, ka) {
            Comparison::Less => false,
            Comparison::Greater => true,
            Comparison::Equal => {
                let c = path_compare(b.path.as_str(), a.path.as_str());
                c != Comparison::Less
            },
        }
    }
}

/// Orders of timeline events.
#[derive(Debug, Clone, Copy, PartialEq, Eq, Structural)]
pub enum EventOrder {
    /// By path, then time, then event label.
    PathTimeLabel,
    /// By time, then event label, then path.
    TimeLabelPath,
    /// By time, then path.
    TimePath,
}

pub open spec fn event_lt(o: EventOrder, a: EventView, b: EventView) -> bool {
    let (pa, pb) = (path_key(a.path), path_key(b.path));
    let (ta, tb) = (a.timestamp, b.timestamp);
    let (la, lb) = (macb_label_rank(a.event_type), macb_label_rank(b.event_type));
    match o {
        EventOrder::PathTimeLabel => keys_lt(pa, pb) || (pa == pb && (ts_lt(ta, tb) || (ta == tb
            && la < lb))),
        EventOrder::TimeLabelPath => ts_lt(ta, tb) || (ta == tb && (la < lb || (la == lb
            && keys_lt(pa, pb)))),
        EventOrder::TimePath => ts_lt(ta, tb) || (ta == tb && keys_lt(pa, pb)),
    }
}

impl KeyOrder<TimelineEvent> for EventOrder {
    open spec fn le(&self, a: TimelineEvent, b: TimelineEvent) -> bool {
        !event_lt(*self, b@, a@)
    }

    proof fn lemma_total(&self, a: TimelineEvent, b: TimelineEvent) {
        lemma_ts_total(a@.timestamp, b@.timestamp);
        lemma_ts_total(a@.timestamp, a@.timestamp);
        lemma_keys_props(path_key(a@.path), path_key(b@.path), path_key(b@.path));
    }

    proof fn lemma_trans(&self, a: TimelineEvent, b: TimelineEvent, c: TimelineEvent) {
        let (pa, pb, pc) = (path_key(a@.path), path_key(b@.path), path_key(c@.path));
        let (ta, tb, tc) = (a@.timestamp, b@.timestamp, c@.timestamp);
        lemma_ts_total(ta, tb);
        lemma_ts_total(tb, tc);
        lemma_ts_total(ta, tc);
        lemma_ts_total(tb, ta);
        lemma_ts_total(tc, tb);
        lemma_ts_total(tc, ta);
        if ts_lt(ta, tb) && ts_lt(tb, tc) {
            Timestamp::lemma_eq_parts(ta, tc);
        }
        if ts_lt(tc, tb) && ts_lt(tb, ta) {
            Timestamp::lemma_eq_parts(ta, tc);
        }
        if ts_lt(tb, ta) && ts_lt(tc, tb) {
            Timestamp::lemma_eq_parts(ta, tc);
        }
        lemma_keys_props(pa, pb, pc);
        lemma_keys_props(pb, pc, pa);
        lemma_keys_props(pc, pa, pb);
        lemma_keys_props(pa, pc, pb);
        lemma_keys_props(pc, pb, pa);
        lemma_keys_props(pb, pa, pc);
    }

    fn le_exec(&self, a: &TimelineEvent, b: &TimelineEvent) -> (r: bool) {
        // le(a, b) is !lt(b, a)
        let tc = ts_compare(&b.timestamp, &a.timestamp);
        let lb = b.event_type.label_rank();
        let la = a.event_type.label_rank();
        match self {
            EventOrder::PathTimeLabel => {
                let pc = path_compare(b.path.as_str(), a.path.as_str());
                match pc {
                    Comparison::Less => false,
                    Comparison::Greater => true,
                    Comparison::Equal => match tc {
                        Comparison::Less => false,
                        Comparison::Greater => true,
                        Comparison::Equal => !(lb < la),
                    },
                }
            },
            EventOrder::TimeLabelPath => match tc {
                Comparison::Less => false,
                Comparison::Greater => true,
                Comparison::Equal => {
                    if lb < la {
                        false
                    } else if lb > la {
                        true
                    } else {
                        let pc = path_compare(b.path.as_str(), a.path.as_str());
                        pc != Comparison::Less
                    }
                },
            },
            EventOrder::TimePath => match tc {
                Comparison::Less => false,
                Comparison::Greater => true,
                Comparison::Equal => {
                    let pc = path_compare(b.path.as_str(), a.path.as_str());
                    pc != Comparison::Less
                },
            },
        }
    }
}

} // verus!
