use vstd::prelude::*;

use crate::anomalies::{
    after_instant, all_timestamps_equal_spec, annotated_spec, detect_spec, has_rule,
    has_zero_timestamp_spec, is_later_spec, merge_spec, rule_all_equal, rule_btime_after_atime,
    rule_btime_after_mtime, rule_btime_in_future, rule_ctime_before_mtime, rule_mtime_in_future,
    rule_zero, rules_unique,
};
use crate::model::{AnomalyRule, AnomalyView, RecordView, Severity};

verus! {

/// The position of a rule in the order the rules are declared and checked.
pub open spec fn rule_rank(rule: AnomalyRule) -> int {
    match rule {
        AnomalyRule::BtimeAfterMtime => 0,
        AnomalyRule::BtimeAfterAtime => 1,
        AnomalyRule::MtimeInFuture => 2,
        AnomalyRule::BtimeInFuture => 3,
        AnomalyRule::CtimeBeforeMtime => 4,
        AnomalyRule::AllTimestampsEqual => 5,
        AnomalyRule::ZeroTimestamps => 6,
        AnomalyRule::NtfsSiFnMismatch => 7,
    }
}

/// The severity each rule reports with.
pub open spec fn rule_severity(rule: AnomalyRule) -> Severity {
    match rule {
        AnomalyRule::BtimeAfterMtime => Severity::High,
        AnomalyRule::BtimeAfterAtime => Severity::Medium,
        AnomalyRule::MtimeInFuture => Severity::High,
        AnomalyRule::BtimeInFuture => Severity::High,
        AnomalyRule::CtimeBeforeMtime => Severity::Medium,
        AnomalyRule::AllTimestampsEqual => Severity::Low,
        AnomalyRule::ZeroTimestamps => Severity::Medium,
        AnomalyRule::NtfsSiFnMismatch => Severity::High,
    }
}

/// The anomalies come in strictly increasing rule order, each with its rule's
/// severity, all of rank below `k`.
pub open spec fn ordered_below(s: Seq<AnomalyView>, k: int) -> bool {
    &&& forall|i: int, j: int|
        0 <= i < j < s.len() ==> rule_rank(#[trigger] s[i].rule) < rule_rank(#[trigger] s[j].rule)
    &&& forall|i: int| 0 <= i < s.len() ==> rule_rank(#[trigger] s[i].rule) < k
    &&& forall|i: int| 0 <= i < s.len() ==> (#[trigger] s[i]).severity == rule_severity(s[i].rule)
}

/// A rule's findings: none, or one of that rule with its severity.
pub open spec fn single_of(t: Seq<AnomalyView>, rule: AnomalyRule) -> bool {
    t.len() <= 1 && forall|i: int|
        0 <= i < t.len() ==> (#[trigger] t[i]).rule == rule && t[i].severity == rule_severity(rule)
}

proof fn lemma_append_ordered(s: Seq<AnomalyView>, t: Seq<AnomalyView>, rule: AnomalyRule)
    requires
        ordered_below(s, rule_rank(rule)),
        single_of(t, rule),
    ensures
        ordered_below(s + t, rule_rank(rule) + 1),
{
}

proof fn lemma_has_rule_append(s: Seq<AnomalyView>, t: Seq<AnomalyView>, x: AnomalyRule)
    ensures
        has_rule(s + t, x) <==> (has_rule(s, x) || has_rule(t, x)),
{
    let u = s + t;
    if has_rule(u, x) {
        let i = choose|i: int| 0 <= i < u.len() && #[trigger] u[i].rule == x;
        if i < s.len() {
            assert(s[i] == u[i]);
        } else {
            assert(t[i - s.len()] == u[i]);
        }
    }
    if has_rule(s, x) {
        let i = choose|i: int| 0 <= i < s.len() && #[trigger] s[i].rule == x;
        assert(u[i] == s[i]);
    }
    if has_rule(t, x) {
        let i = choose|i: int| 0 <= i < t.len() && #[trigger] t[i].rule == x;
        assert(u[s.len() + i] == t[i]);
    }
}

/// Exactly which rules the generic detection reports, and how: a rule is
/// reported if and only if its condition holds (timestamps more than one
/// second apart for the ordering rules, strictly after the instant of the
/// check for the future rules), at most once, in declaration order, with its
/// fixed severity; the NTFS rule never.
pub proof fn lemma_detect_rules(r: RecordView, now_secs: i64, now_nanos: u32)
    ensures
        ({
            let d = detect_spec(r, now_secs, now_nanos);
            &&& has_rule(d, AnomalyRule::BtimeAfterMtime) <==> (r.btime is Some && r.mtime is Some
                && r.btime->0.spec_secs() > r.mtime->0.spec_secs() + 1)
            &&& has_rule(d, AnomalyRule::BtimeAfterAtime) <==> (r.btime is Some && r.atime is Some
                && r.btime->0.spec_secs() > r.atime->0.spec_secs() + 1)
            &&& has_rule(d, AnomalyRule::MtimeInFuture) <==> (r.mtime is Some && (
            r.mtime->0.spec_secs() > now_secs || (r.mtime->0.spec_secs() == now_secs
                && r.mtime->0.spec_nanos() > now_nanos)))
            &&& has_rule(d, AnomalyRule::BtimeInFuture) <==> (r.btime is Some && (
            r.btime->0.spec_secs() > now_secs || (r.btime->0.spec_secs() == now_secs
                && r.btime->0.spec_nanos() > now_nanos)))
            &&& has_rule(d, AnomalyRule::CtimeBeforeMtime) <==> (r.ctime is Some && r.mtime is Some
                && r.mtime->0.spec_secs() > r.ctime->0.spec_secs() + 1)
            &&& has_rule(d, AnomalyRule::AllTimestampsEqual) <==> all_timestamps_equal_spec(r)
            &&& has_rule(d, AnomalyRule::ZeroTimestamps) <==> ((r.mtime is Some
                && r.mtime->0.spec_secs() == 0) || (r.atime is Some && r.atime->0.spec_secs() == 0)
                || (r.ctime is Some && r.ctime->0.spec_secs() == 0) || (r.btime is Some
                && r.btime->0.spec_secs() == 0))
            &&& !has_rule(d, AnomalyRule::NtfsSiFnMismatch)
            &&& ordered_below(d, 7)
            &&& rules_unique(d)
        }),
{
    let p1 = rule_btime_after_mtime(r);
    let p2 = rule_btime_after_atime(r);
    let p3 = rule_mtime_in_future(r, now_secs, now_nanos);
    let p4 = rule_btime_in_future(r, now_secs, now_nanos);
    let p5 = rule_ctime_before_mtime(r);
    let p6 = rule_all_equal(r);
    let p7 = rule_zero(r);
    assert(single_of(p1, AnomalyRule::BtimeAfterMtime));
    assert(single_of(p2, AnomalyRule::BtimeAfterAtime));
    assert(single_of(p3, AnomalyRule::MtimeInFuture));
    assert(single_of(p4, AnomalyRule::BtimeInFuture));
    assert(single_of(p5, AnomalyRule::CtimeBeforeMtime));
    assert(single_of(p6, AnomalyRule::AllTimestampsEqual));
    assert(single_of(p7, AnomalyRule::ZeroTimestamps));
    lemma_seven_parts(p1, p2, p3, p4, p5, p6, p7);
    assert(detect_spec(r, now_secs, now_nanos) == p1 + p2 + p3 + p4 + p5 + p6 + p7);
}

/// Seven parts, one per rule in rule order, joined: which rules they hold.
proof fn lemma_seven_parts(
    p1: Seq<AnomalyView>,
    p2: Seq<AnomalyView>,
    p3: Seq<AnomalyView>,
    p4: Seq<AnomalyView>,
    p5: Seq<AnomalyView>,
    p6: Seq<AnomalyView>,
    p7: Seq<AnomalyView>,
)
    requires
        single_of(p1, AnomalyRule::BtimeAfterMtime),
        single_of(p2, AnomalyRule::BtimeAfterAtime),
        single_of(p3, AnomalyRule::MtimeInFuture),
        single_of(p4, AnomalyRule::BtimeInFuture),
        single_of(p5, AnomalyRule::CtimeBeforeMtime),
        single_of(p6, AnomalyRule::AllTimestampsEqual),
        single_of(p7, AnomalyRule::ZeroTimestamps),
    ensures
        ({
            let d = p1 + p2 + p3 + p4 + p5 + p6 + p7;
            &&& has_rule(d, AnomalyRule::BtimeAfterMtime) <==> p1.len() == 1
            &&& has_rule(d, AnomalyRule::BtimeAfterAtime) <==> p2.len() == 1
            &&& has_rule(d, AnomalyRule::MtimeInFuture) <==> p3.len() == 1
            &&& has_rule(d, AnomalyRule::BtimeInFuture) <==> p4.len() == 1
            &&& has_rule(d, AnomalyRule::CtimeBeforeMtime) <==> p5.len() == 1
            &&& has_rule(d, AnomalyRule::AllTimestampsEqual) <==> p6.len() == 1
            &&& has_rule(d, AnomalyRule::ZeroTimestamps) <==> p7.len() == 1
            &&& !has_rule(d, AnomalyRule::NtfsSiFnMismatch)
            &&& ordered_below(d, 7)
            &&& rules_unique(d)
        }),
{
    lemma_seven_ordered(p1, p2, p3, p4, p5, p6, p7);
    lemma_seven_has(p1, p2, p3, p4, p5, p6, p7, AnomalyRule::BtimeAfterMtime);
    lemma_seven_has(p1, p2, p3, p4, p5, p6, p7, AnomalyRule::BtimeAfterAtime);
    lemma_seven_has(p1, p2, p3, p4, p5, p6, p7, AnomalyRule::MtimeInFuture);
    lemma_seven_has(p1, p2, p3, p4, p5, p6, p7, AnomalyRule::BtimeInFuture);
    lemma_seven_has(p1, p2, p3, p4, p5, p6, p7, AnomalyRule::CtimeBeforeMtime);
    lemma_seven_has(p1, p2, p3, p4, p5, p6, p7, AnomalyRule::AllTimestampsEqual);
    lemma_seven_has(p1, p2, p3, p4, p5, p6, p7, AnomalyRule::ZeroTimestamps);
    lemma_seven_has(p1, p2, p3, p4, p5, p6, p7, AnomalyRule::NtfsSiFnMismatch);
    lemma_single(p1, AnomalyRule::BtimeAfterMtime);
    lemma_single(p2, AnomalyRule::BtimeAfterAtime);
    lemma_single(p3, AnomalyRule::MtimeInFuture);
    lemma_single(p4, AnomalyRule::BtimeInFuture);
    lemma_single(p5, AnomalyRule::CtimeBeforeMtime);
    lemma_single(p6, AnomalyRule::AllTimestampsEqual);
    lemma_single(p7, AnomalyRule::ZeroTimestamps);
}

proof fn lemma_seven_ordered(
    p1: Seq<AnomalyView>,
    p2: Seq<AnomalyView>,
    p3: Seq<AnomalyView>,
    p4: Seq<AnomalyView>,
    p5: Seq<AnomalyView>,
    p6: Seq<AnomalyView>,
    p7: Seq<AnomalyView>,
)
    requires
        single_of(p1, AnomalyRule::BtimeAfterMtime),
        single_of(p2, AnomalyRule::BtimeAfterAtime),
        single_of(p3, AnomalyRule::MtimeInFuture),
        single_of(p4, AnomalyRule::BtimeInFuture),
        single_of(p5, AnomalyRule::CtimeBeforeMtime),
        single_of(p6, AnomalyRule::AllTimestampsEqual),
        single_of(p7, AnomalyRule::ZeroTimestamps),
    ensures
        ordered_below(p1 + p2 + p3 + p4 + p5 + p6 + p7, 7),
        rules_unique(p1 + p2 + p3 + p4 + p5 + p6 + p7),
{
    let e = Seq::<AnomalyView>::empty();
    assert(e + p1 =~= p1);
    lemma_append_ordered(e, p1, AnomalyRule::BtimeAfterMtime);
    lemma_append_ordered(p1, p2, AnomalyRule::BtimeAfterAtime);
    lemma_append_ordered(p1 + p2, p3, AnomalyRule::MtimeInFuture);
    lemma_append_ordered(p1 + p2 + p3, p4, AnomalyRule::BtimeInFuture);
    lemma_append_ordered(p1 + p2 + p3 + p4, p5, AnomalyRule::CtimeBeforeMtime);
    lemma_append_ordered(p1 + p2 + p3 + p4 + p5, p6, AnomalyRule::AllTimestampsEqual);
    lemma_append_ordered(p1 + p2 + p3 + p4 + p5 + p6, p7, AnomalyRule::ZeroTimestamps);
    let d = p1 + p2 + p3 + p4 + p5 + p6 + p7;
    assert forall|i: int, j: int| 0 <= i < j < d.len() implies #[trigger] d[i].rule
        != #[trigger] d[j].rule by {
        assert(rule_rank(d[i].rule) < rule_rank(d[j].rule));
    }
}

proof fn lemma_seven_has(
    p1: Seq<AnomalyView>,
    p2: Seq<AnomalyView>,
    p3: Seq<AnomalyView>,
    p4: Seq<AnomalyView>,
    p5: Seq<AnomalyView>,
    p6: Seq<AnomalyView>,
    p7: Seq<AnomalyView>,
    x: AnomalyRule,
)
    ensures
        has_rule(p1 + p2 + p3 + p4 + p5 + p6 + p7, x) <==> (has_rule(p1, x) || has_rule(p2, x)
            || has_rule(p3, x) || has_rule(p4, x) || has_rule(p5, x) || has_rule(p6, x)
            || has_rule(p7, x)),
{
    lemma_has_rule_append(p1, p2, x);
    lemma_has_rule_append(p1 + p2, p3, x);
    lemma_has_rule_append(p1 + p2 + p3, p4, x);
    lemma_has_rule_append(p1 + p2 + p3 + p4, p5, x);
    lemma_has_rule_append(p1 + p2 + p3 + p4 + p5, p6, x);
    lemma_has_rule_append(p1 + p2 + p3 + p4 + p5 + p6, p7, x);
}

proof fn lemma_single(t: Seq<AnomalyView>, rule: AnomalyRule)
    requires
        single_of(t, rule),
    ensures
        forall|x: AnomalyRule| has_rule(t, x) <==> (x == rule && t.len() == 1),
{
    assert forall|x: AnomalyRule| has_rule(t, x) <==> (x == rule && t.len() == 1) by {
        if has_rule(t, x) {
            let i = choose|i: int| 0 <= i < t.len() && #[trigger] t[i].rule == x;
        }
        if x == rule && t.len() == 1 {
            assert(t[0].rule == rule);
        }
    }
}

/// The detected anomalies whose rule the existing list lacks, in order.
pub open spec fn new_findings(existing: Seq<AnomalyView>, detected: Seq<AnomalyView>) -> Seq<
    AnomalyView,
>
    decreases detected.len(),
{
    if detected.len() == 0 {
        seq![]
    } else if has_rule(existing, detected.last().rule) {
        new_findings(existing, detected.drop_last())
    } else {
        new_findings(existing, detected.drop_last()).push(detected.last())
    }
}

proof fn lemma_new_findings_from(existing: Seq<AnomalyView>, detected: Seq<AnomalyView>)
    ensures
        forall|i: int|
            0 <= i < new_findings(existing, detected).len() ==> detected.contains(
                #[trigger] new_findings(existing, detected)[i],
            ),
    decreases detected.len(),
{
    if detected.len() > 0 {
        let d = detected.drop_last();
        lemma_new_findings_from(existing, d);
        let n = new_findings(existing, detected);
        assert forall|i: int| 0 <= i < n.len() implies detected.contains(#[trigger] n[i]) by {
            let nd = new_findings(existing, d);
            if i < nd.len() {
                assert(n[i] == nd[i]);
                let j = choose|j: int| 0 <= j < d.len() && d[j] == nd[i];
                assert(detected[j] == d[j]);
            } else {
                assert(n[i] == detected[detected.len() - 1]);
            }
        }
    }
}

/// When the detected anomalies have distinct rules (as the generic detection's
/// always do), the merge is the existing list followed by the detected
/// anomalies whose rule it lacks, in their order.
pub proof fn lemma_merge_appends_new_findings(existing: Seq<AnomalyView>, detected: Seq<AnomalyView>)
    requires
        rules_unique(detected),
    ensures
        merge_spec(existing, detected) == existing + new_findings(existing, detected),
    decreases detected.len(),
{
    if detected.len() == 0 {
        assert(existing + seq![] =~= existing);
    } else {
        let d = detected.drop_last();
        let x = detected.last();
        assert(rules_unique(d)) by {
            assert forall|i: int, j: int| 0 <= i < j < d.len() implies #[trigger] d[i].rule
                != #[trigger] d[j].rule by {
                assert(d[i] == detected[i] && d[j] == detected[j]);
            }
        }
        lemma_merge_appends_new_findings(existing, d);
        let nd = new_findings(existing, d);
        lemma_new_findings_from(existing, d);
        let m = merge_spec(existing, d);
        assert(!has_rule(nd, x.rule)) by {
            if has_rule(nd, x.rule) {
                let i = choose|i: int| 0 <= i < nd.len() && #[trigger] nd[i].rule == x.rule;
                assert(d.contains(nd[i]));
                let j = choose|j: int| 0 <= j < d.len() && d[j] == nd[i];
                assert(detected[j] == d[j]);
                assert(detected[j].rule != detected[detected.len() - 1].rule);
            }
        }
        assert(has_rule(m, x.rule) <==> has_rule(existing, x.rule)) by {
            if has_rule(m, x.rule) {
                let i = choose|i: int| 0 <= i < m.len() && #[trigger] m[i].rule == x.rule;
                if i < existing.len() {
                    assert(existing[i] == m[i]);
                } else {
                    assert(nd[i - existing.len()] == m[i]);
                }
            }
            if has_rule(existing, x.rule) {
                let i = choose|i: int| 0 <= i < existing.len() && #[trigger] existing[i].rule
                    == x.rule;
                assert(m[i] == existing[i]);
            }
        }
        if !has_rule(existing, x.rule) {
            assert(m.push(x) =~= existing + nd.push(x));
        }
    }
}

/// Annotation keeps the scanner's anomalies and appends, in rule order, each
/// detected anomaly whose rule the scanner did not already report.
pub proof fn lemma_annotation_appends_new_findings(r: RecordView, now_secs: i64, now_nanos: u32)
    ensures
        annotated_spec(r, now_secs, now_nanos).anomalies == r.anomalies + new_findings(
            r.anomalies,
            detect_spec(r, now_secs, now_nanos),
        ),
{
    lemma_detect_rules(r, now_secs, now_nanos);
    lemma_merge_appends_new_findings(r.anomalies, detect_spec(r, now_secs, now_nanos));
}

} // verus!
