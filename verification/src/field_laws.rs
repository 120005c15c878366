use vstd::prelude::*;

use crate::anomalies::{
    all_timestamps_equal_spec, detect_spec, has_rule, opt_seq, present_timestamps,
};
use crate::clock::chrono_utc_valid;
use crate::model::{
    latest_timestamp_spec, max_opt_ts, ts_le, AnomalyRule, MacbType, RecordView, Severity,
    Timestamp,
};
use crate::orders::lemma_ts_total;
use crate::rule_laws::lemma_detect_rules;
use crate::tsk::{ntfs_mismatch_spec, tsk_macb_spec, TskMetaTimes, TSK_FS_TYPE_NTFS};

verus! {

/// How many of the four MACB timestamps a record holds.
pub open spec fn macb_present(r: RecordView) -> int {
    (if r.mtime is Some { 1int } else { 0int }) + (if r.atime is Some { 1int } else { 0int }) + (
    if r.ctime is Some { 1int } else { 0int }) + (if r.btime is Some { 1int } else { 0int })
}

/// Two optional timestamps agree whenever both are present.
pub open spec fn agree(x: Option<Timestamp>, y: Option<Timestamp>) -> bool {
    x is Some && y is Some ==> x == y
}

/// The "all timestamps equal" rule fires exactly when at least two MACB
/// timestamps are present and every present one equals every other; a missing
/// one (such as an unreported birth time) does not stop it.
pub proof fn lemma_all_equal_rule(r: RecordView, now_secs: i64, now_nanos: u32)
    ensures
        has_rule(detect_spec(r, now_secs, now_nanos), AnomalyRule::AllTimestampsEqual) <==> (
        macb_present(r) >= 2 && agree(r.mtime, r.atime) && agree(r.mtime, r.ctime) && agree(
            r.mtime,
            r.btime,
        ) && agree(r.atime, r.ctime) && agree(r.atime, r.btime) && agree(r.ctime, r.btime)),
{
    lemma_detect_rules(r, now_secs, now_nanos);
    let p = present_timestamps(r);
    let (m, a, c, b) = (opt_seq(r.mtime), opt_seq(r.atime), opt_seq(r.ctime), opt_seq(r.btime));
    assert(p == m + a + c + b);
    assert(p.len() == macb_present(r));
    let all = agree(r.mtime, r.atime) && agree(r.mtime, r.ctime) && agree(r.mtime, r.btime)
        && agree(r.atime, r.ctime) && agree(r.atime, r.btime) && agree(r.ctime, r.btime);
    // every element of p is one of the present timestamps, each at a known place
    assert forall|i: int| 0 <= i < p.len() implies ({
        let t = #[trigger] p[i];
        (r.mtime == Some(t) || r.atime == Some(t) || r.ctime == Some(t) || r.btime == Some(t))
    }) by {
        if i < m.len() {
            assert(p[i] == m[i]);
        } else if i < m.len() + a.len() {
            assert(p[i] == a[i - m.len()]);
        } else if i < m.len() + a.len() + c.len() {
            assert(p[i] == c[i - m.len() - a.len()]);
        } else {
            assert(p[i] == b[i - m.len() - a.len() - c.len()]);
        }
    }
    if all_timestamps_equal_spec(r) {
        let z = p[0];
        if r.mtime is Some {
            assert(p[0] == r.mtime->0);
        }
        assert(r.mtime matches Some(t) ==> t == z) by {
            if r.mtime is Some {
                assert(p[0] == r.mtime->0);
            }
        }
        assert(r.atime matches Some(t) ==> t == z) by {
            if r.atime is Some {
                assert(p[m.len() as int] == r.atime->0);
            }
        }
        assert(r.ctime matches Some(t) ==> t == z) by {
            if r.ctime is Some {
                assert(p[(m.len() + a.len()) as int] == r.ctime->0);
            }
        }
        assert(r.btime matches Some(t) ==> t == z) by {
            if r.btime is Some {
                assert(p[(m.len() + a.len() + c.len()) as int] == r.btime->0);
            }
        }
    }
    if macb_present(r) >= 2 && all {
        assert forall|i: int| 0 <= i < p.len() implies #[trigger] p[i] == p[0] by {
            let t = p[i];
            let z = p[0];
            assert(r.mtime == Some(t) || r.atime == Some(t) || r.ctime == Some(t) || r.btime
                == Some(t));
            assert(r.mtime == Some(z) || r.atime == Some(z) || r.ctime == Some(z) || r.btime
                == Some(z));
        }
    }
}

/// A libtsk time in seconds as a whole-second instant: none when zero or
/// negative (unset), or when chrono cannot represent it.
pub open spec fn unix_seconds(secs: i64) -> Option<(i64, u32)> {
    if secs > 0 && chrono_utc_valid(secs, 0) {
        Some((secs, 0u32))
    } else {
        None
    }
}

/// Each mapped MACB time comes from its own libtsk field: M from `mtime`, A
/// from `atime`, C from `ctime` (none on FAT12/16/32, types 8, 9 and 10), B
/// from `crtime`.
pub proof fn lemma_tsk_fields(fs_type: u32, times: TskMetaTimes)
    ensures
        tsk_macb_spec(fs_type, times).0 == unix_seconds(times.mtime),
        tsk_macb_spec(fs_type, times).1 == unix_seconds(times.atime),
        tsk_macb_spec(fs_type, times).2 == if fs_type == 8 || fs_type == 9 || fs_type == 10 {
            None
        } else {
            unix_seconds(times.ctime)
        },
        tsk_macb_spec(fs_type, times).3 == unix_seconds(times.crtime),
{
}

/// Two libtsk times disagree: both set and more than a second apart.
pub open spec fn apart(x: i64, y: i64) -> bool {
    x > 0 && y > 0 && (x - y > 1 || y - x > 1)
}

pub open spec fn ntfs_description(labels: Seq<char>) -> Seq<char> {
    "NTFS $STANDARD_INFORMATION and $FILE_NAME timestamps differ ("@ + labels + ")"@
}

/// On NTFS a mismatch is reported exactly when one of the four time pairs
/// ($STANDARD_INFORMATION against $FILE_NAME: mtime, crtime, atime, ctime)
/// disagrees, as a high NTFS finding over all four kinds; a single disagreeing
/// pair is named alone, and all four are named in order.
pub proof fn lemma_ntfs_mismatch_law(si: TskMetaTimes, fname: TskMetaTimes)
    ensures
        ({
            let dm = apart(si.mtime, fname.mtime);
            let dcr = apart(si.crtime, fname.crtime);
            let da = apart(si.atime, fname.atime);
            let dc = apart(si.ctime, fname.ctime);
            let out = ntfs_mismatch_spec(TSK_FS_TYPE_NTFS, Some((si, fname)));
            &&& out is Some <==> (dm || dcr || da || dc)
            &&& out matches Some(a) ==> a.rule == AnomalyRule::NtfsSiFnMismatch && a.severity
                == Severity::High && a.timestamps_involved == seq![
                MacbType::Modified,
                MacbType::Born,
                MacbType::Accessed,
                MacbType::Changed,
            ]
            &&& (dm && !dcr && !da && !dc) ==> out->0.description == ntfs_description("mtime"@)
            &&& (!dm && dcr && !da && !dc) ==> out->0.description == ntfs_description("crtime"@)
            &&& (!dm && !dcr && da && !dc) ==> out->0.description == ntfs_description("atime"@)
            &&& (!dm && !dcr && !da && dc) ==> out->0.description == ntfs_description("ctime"@)
            &&& (dm && dcr && da && dc) ==> out->0.description == ntfs_description(
                "mtime, crtime, atime, ctime"@,
            )
        }),
{
    reveal_strlit("mtime");
    reveal_strlit("crtime");
    reveal_strlit("atime");
    reveal_strlit("ctime");
    reveal_strlit(", ");
    reveal_strlit("mtime, crtime, atime, ctime");
    let labels = crate::tsk::ntfs_mismatch_labels(si, fname);
    if apart(si.mtime, fname.mtime) && apart(si.crtime, fname.crtime) && apart(si.atime, fname.atime)
        && apart(si.ctime, fname.ctime) {
        assert(labels =~= seq!["mtime"@, "crtime"@, "atime"@, "ctime"@]);
        let l3 = labels.drop_last();
        let l2 = l3.drop_last();
        let l1 = l2.drop_last();
        assert(l1 =~= seq!["mtime"@]);
        assert(crate::tsk::comma_join(l1) == "mtime"@);
        assert(crate::tsk::comma_join(l2) == "mtime"@ + ", "@ + "crtime"@);
        assert(crate::tsk::comma_join(l3) == "mtime"@ + ", "@ + "crtime"@ + ", "@ + "atime"@);
        assert(crate::tsk::comma_join(labels) == "mtime"@ + ", "@ + "crtime"@ + ", "@ + "atime"@
            + ", "@ + "ctime"@);
        assert(crate::tsk::comma_join(labels) =~= "mtime, crtime, atime, ctime"@);
    }
    if !apart(si.mtime, fname.mtime) && !apart(si.crtime, fname.crtime) && apart(si.atime, fname.atime)
        && !apart(si.ctime, fname.ctime) {
        assert(labels =~= seq!["atime"@]);
    }
    if apart(si.mtime, fname.mtime) && !apart(si.crtime, fname.crtime) && !apart(si.atime, fname.atime)
        && !apart(si.ctime, fname.ctime) {
        assert(labels =~= seq!["mtime"@]);
    }
    if !apart(si.mtime, fname.mtime) && apart(si.crtime, fname.crtime) && !apart(si.atime, fname.atime)
        && !apart(si.ctime, fname.ctime) {
        assert(labels =~= seq!["crtime"@]);
    }
    if !apart(si.mtime, fname.mtime) && !apart(si.crtime, fname.crtime) && !apart(si.atime, fname.atime)
        && apart(si.ctime, fname.ctime) {
        assert(labels =~= seq!["ctime"@]);
    }
}

/// The latest MACB timestamp is present exactly when one of the four is, is
/// then one of them, and is no earlier than any present one (the change time
/// included).
pub proof fn lemma_latest_is_maximum(r: RecordView)
    ensures
        latest_timestamp_spec(r) is Some <==> macb_present(r) > 0,
        latest_timestamp_spec(r) matches Some(l) ==> {
            &&& r.mtime == Some(l) || r.atime == Some(l) || r.ctime == Some(l) || r.btime == Some(l)
            &&& r.mtime matches Some(t) ==> ts_le(t, l)
            &&& r.atime matches Some(t) ==> ts_le(t, l)
            &&& r.ctime matches Some(t) ==> ts_le(t, l)
            &&& r.btime matches Some(t) ==> ts_le(t, l)
        },
{
    lemma_max_opt(r.mtime, r.atime);
    let x = max_opt_ts(r.mtime, r.atime);
    lemma_max_opt(x, r.ctime);
    let y = max_opt_ts(x, r.ctime);
    lemma_max_opt(y, r.btime);
    let z = max_opt_ts(y, r.btime);
    if z is Some {
        let l = z->0;
        if x is Some && y is Some {
            lemma_ts_le_trans(x->0, y->0, l);
        }
        if y is Some {
            lemma_ts_le_trans(y->0, y->0, l);
        }
        if r.mtime is Some && x is Some && y is Some {
            lemma_ts_le_trans(r.mtime->0, x->0, y->0);
            lemma_ts_le_trans(r.mtime->0, y->0, l);
        }
        if r.atime is Some && x is Some && y is Some {
            lemma_ts_le_trans(r.atime->0, x->0, y->0);
            lemma_ts_le_trans(r.atime->0, y->0, l);
        }
        if r.ctime is Some && y is Some {
            lemma_ts_le_trans(r.ctime->0, y->0, l);
        }
    }
}

proof fn lemma_ts_le_trans(a: Timestamp, b: Timestamp, c: Timestamp)
    requires
        ts_le(a, b),
        ts_le(b, c),
    ensures
        ts_le(a, c),
{
}

proof fn lemma_max_opt(a: Option<Timestamp>, b: Option<Timestamp>)
    ensures
        max_opt_ts(a, b) is Some <==> (a is Some || b is Some),
        max_opt_ts(a, b) matches Some(l) ==> (a == Some(l) || b == Some(l)) && (a matches Some(
            t,
        ) ==> ts_le(t, l)) && (b matches Some(t) ==> ts_le(t, l)),
{
    if a is Some && b is Some {
        lemma_ts_total(a->0, b->0);
        crate::model::Timestamp::lemma_eq_parts(a->0, b->0);
    }
    if a is Some {
        crate::model::Timestamp::lemma_eq_parts(a->0, a->0);
    }
    if b is Some {
        crate::model::Timestamp::lemma_eq_parts(b->0, b->0);
    }
}

/// A text cut at each `sep` into its fields.
pub open spec fn cut_fields(s: Seq<char>, sep: char) -> Seq<Seq<char>>
    decreases s.len(),
{
    if s.len() == 0 {
        seq![seq![]]
    } else {
        let prev = cut_fields(s.drop_last(), sep);
        if s.last() == sep {
            prev.push(seq![])
        } else {
            prev.update(prev.len() - 1, prev.last().push(s.last()))
        }
    }
}

/// A text cut at each `|` into its fields.
pub open spec fn bar_fields(s: Seq<char>) -> Seq<Seq<char>> {
    cut_fields(s, '|')
}

/// The text holds no `sep`.
pub open spec fn lacks(s: Seq<char>, sep: char) -> bool {
    forall|i: int| 0 <= i < s.len() ==> s[i] != sep
}

/// The text holds no `|`.
pub open spec fn no_bar(s: Seq<char>) -> bool {
    lacks(s, '|')
}

/// Seconds of an optional timestamp, 0 when absent.
pub open spec fn seconds_or_zero(t: Option<Timestamp>) -> int {
    match t {
        Some(v) => v.spec_secs() as int,
        None => 0,
    }
}

proof fn lemma_cut_len(s: Seq<char>, sep: char)
    ensures
        cut_fields(s, sep).len() >= 1,
    decreases s.len(),
{
    if s.len() > 0 {
        lemma_cut_len(s.drop_last(), sep);
    }
}

proof fn lemma_cut_single(s: Seq<char>, sep: char)
    requires
        lacks(s, sep),
    ensures
        cut_fields(s, sep) == seq![s],
    decreases s.len(),
{
    if s.len() > 0 {
        lemma_cut_single(s.drop_last(), sep);
        assert(s.drop_last().push(s.last()) =~= s);
        assert(cut_fields(s, sep) =~= seq![s]);
    } else {
        assert(s =~= Seq::<char>::empty());
    }
}

proof fn lemma_cut_join(a: Seq<char>, b: Seq<char>, sep: char)
    ensures
        cut_fields(a + seq![sep] + b, sep) == cut_fields(a, sep) + cut_fields(b, sep),
    decreases b.len(),
{
    lemma_cut_len(a, sep);
    if b.len() == 0 {
        assert(a + seq![sep] + b =~= a.push(sep));
        assert((a.push(sep)).drop_last() =~= a);
        assert(cut_fields(a, sep) + cut_fields(b, sep) =~= cut_fields(a, sep).push(seq![]));
    } else {
        let b1 = b.drop_last();
        lemma_cut_join(a, b1, sep);
        lemma_cut_len(b1, sep);
        let s = a + seq![sep] + b;
        assert(s.drop_last() =~= a + seq![sep] + b1);
        assert(s.last() == b.last());
        let fa = cut_fields(a, sep);
        let fb1 = cut_fields(b1, sep);
        if b.last() == sep {
            assert(cut_fields(s, sep) =~= fa + fb1.push(seq![]));
        } else {
            assert(cut_fields(s, sep) =~= fa + fb1.update(fb1.len() - 1, fb1.last().push(b.last())));
        }
    }
}

/// Appending the separator and a field without it adds that field.
proof fn lemma_add_cut(line: Seq<char>, field: Seq<char>, sep: char)
    requires
        lacks(field, sep),
    ensures
        cut_fields(line + seq![sep] + field, sep) == cut_fields(line, sep).push(field),
{
    lemma_cut_join(line, field, sep);
    lemma_cut_single(field, sep);
}

/// Appending `|` and a field without `|` adds that field.
proof fn lemma_add_field(line: Seq<char>, field: Seq<char>)
    requires
        no_bar(field),
    ensures
        bar_fields(line + "|"@ + field) == bar_fields(line).push(field),
{
    reveal_strlit("|");
    assert("|"@ =~= seq!['|']);
    lemma_add_cut(line, field, '|');
}

proof fn lemma_decimal_no_bar(n: nat)
    ensures
        no_bar(crate::text::decimal_spec(n)),
        lacks(crate::text::decimal_spec(n), ','),
    decreases n,
{
    if n >= 10 {
        lemma_decimal_no_bar(n / 10);
    }
    let d = (n % 10) as nat;
    assert(crate::text::digit_char_spec(d) as u32 == 48 + d);
}

proof fn lemma_signed_no_bar(n: int)
    ensures
        no_bar(crate::text::signed_decimal_spec(n)),
{
    if n < 0 {
        lemma_decimal_no_bar((-n) as nat);
    } else {
        lemma_decimal_no_bar(n as nat);
    }
}

/// A bodyfile line has the Sleuth Kit layout
/// `MD5|name|inode|mode|uid|gid|size|atime|mtime|ctime|crtime`: cut at `|`
/// (when neither the path nor the digest holds one) it gives eleven fields,
/// the last four the seconds of the access, modification, change and birth
/// times in that order (0 when absent).
pub proof fn lemma_bodyfile_columns(r: RecordView)
    requires
        no_bar(r.path),
        r.md5 matches Some(h) ==> no_bar(h),
    ensures
        ({
            let f = bar_fields(crate::output::bodyfile_line_spec(r));
            &&& f.len() == 11
            &&& f[0] == match r.md5 {
                Some(h) => h,
                None => "0"@,
            }
            &&& f[1] == crate::output::bodyfile_path_spec(r)
            &&& f[2] == crate::text::decimal_spec(
                match r.inode {
                    Some(i) => i as nat,
                    None => 0,
                },
            )
            &&& f[3] == crate::output::mode_text(crate::output::effective_mode(r), r.is_dir)
            &&& f[4] == crate::text::decimal_spec(
                match r.uid {
                    Some(i) => i as nat,
                    None => 0,
                },
            )
            &&& f[5] == crate::text::decimal_spec(
                match r.gid {
                    Some(i) => i as nat,
                    None => 0,
                },
            )
            &&& f[6] == crate::text::decimal_spec(r.size as nat)
            &&& f[7] == crate::text::signed_decimal_spec(seconds_or_zero(r.atime))
            &&& f[8] == crate::text::signed_decimal_spec(seconds_or_zero(r.mtime))
            &&& f[9] == crate::text::signed_decimal_spec(seconds_or_zero(r.ctime))
            &&& f[10] == crate::text::signed_decimal_spec(seconds_or_zero(r.btime))
        }),
{
    use_field_facts(r);
}

proof fn use_field_facts(r: RecordView)
    requires
        no_bar(r.path),
        r.md5 matches Some(h) ==> no_bar(h),
    ensures
        ({
            let f = bar_fields(crate::output::bodyfile_line_spec(r));
            &&& f.len() == 11
            &&& f[0] == crate::output::bodyfile_hash_spec(r)
            &&& f[1] == crate::output::bodyfile_path_spec(r)
            &&& f[2] == crate::text::decimal_spec(crate::output::opt_u64_or_zero(r.inode) as nat)
            &&& f[3] == crate::output::mode_text(crate::output::effective_mode(r), r.is_dir)
            &&& f[4] == crate::text::decimal_spec(crate::output::opt_u32_or_zero(r.uid) as nat)
            &&& f[5] == crate::text::decimal_spec(crate::output::opt_u32_or_zero(r.gid) as nat)
            &&& f[6] == crate::text::decimal_spec(r.size as nat)
            &&& f[7] == crate::text::signed_decimal_spec(seconds_or_zero(r.atime))
            &&& f[8] == crate::text::signed_decimal_spec(seconds_or_zero(r.mtime))
            &&& f[9] == crate::text::signed_decimal_spec(seconds_or_zero(r.ctime))
            &&& f[10] == crate::text::signed_decimal_spec(seconds_or_zero(r.btime))
        }),
{
    reveal_strlit("0");
    reveal_strlit("*(deleted)*");
    let h = crate::output::bodyfile_hash_spec(r);
    let p = crate::output::bodyfile_path_spec(r);
    let inode = crate::text::decimal_spec(crate::output::opt_u64_or_zero(r.inode) as nat);
    let mode = crate::output::mode_text(crate::output::effective_mode(r), r.is_dir);
    let uid = crate::text::decimal_spec(crate::output::opt_u32_or_zero(r.uid) as nat);
    let gid = crate::text::decimal_spec(crate::output::opt_u32_or_zero(r.gid) as nat);
    let size = crate::text::decimal_spec(r.size as nat);
    let at = crate::text::signed_decimal_spec(crate::output::epoch_secs_spec(r.atime) as int);
    let mt = crate::text::signed_decimal_spec(crate::output::epoch_secs_spec(r.mtime) as int);
    let ct = crate::text::signed_decimal_spec(crate::output::epoch_secs_spec(r.ctime) as int);
    let bt = crate::text::signed_decimal_spec(crate::output::epoch_secs_spec(r.btime) as int);
    assert(no_bar(h));
    assert(no_bar(p)) by {
        assert(no_bar(crate::output::forward_slashes(r.path)));
    }
    assert(no_bar(mode));
    lemma_decimal_no_bar(crate::output::opt_u64_or_zero(r.inode) as nat);
    lemma_decimal_no_bar(crate::output::opt_u32_or_zero(r.uid) as nat);
    lemma_decimal_no_bar(crate::output::opt_u32_or_zero(r.gid) as nat);
    lemma_decimal_no_bar(r.size as nat);
    lemma_signed_no_bar(crate::output::epoch_secs_spec(r.atime) as int);
    lemma_signed_no_bar(crate::output::epoch_secs_spec(r.mtime) as int);
    lemma_signed_no_bar(crate::output::epoch_secs_spec(r.ctime) as int);
    lemma_signed_no_bar(crate::output::epoch_secs_spec(r.btime) as int);
    lemma_cut_single(h, '|');
    let l1 = h;
    let l2 = l1 + "|"@ + p;
    lemma_add_field(l1, p);
    let l3 = l2 + "|"@ + inode;
    lemma_add_field(l2, inode);
    let l4 = l3 + "|"@ + mode;
    lemma_add_field(l3, mode);
    let l5 = l4 + "|"@ + uid;
    lemma_add_field(l4, uid);
    let l6 = l5 + "|"@ + gid;
    lemma_add_field(l5, gid);
    let l7 = l6 + "|"@ + size;
    lemma_add_field(l6, size);
    let l8 = l7 + "|"@ + at;
    lemma_add_field(l7, at);
    let l9 = l8 + "|"@ + mt;
    lemma_add_field(l8, mt);
    let l10 = l9 + "|"@ + ct;
    lemma_add_field(l9, ct);
    let l11 = l10 + "|"@ + bt;
    lemma_add_field(l10, bt);
    assert(l11 == crate::output::bodyfile_line_spec(r));
}

proof fn lemma_escape_lacks(s: Seq<char>, sep: char)
    requires
        lacks(s, sep),
        sep != '"',
    ensures
        lacks(crate::output::csv_escape_spec(s), sep),
    decreases s.len(),
{
    if s.len() > 0 {
        lemma_escape_lacks(s.drop_last(), sep);
    }
}

/// A record's CSV line has the columns of the header
/// `path,inode,mtime,atime,ctime,btime,size,anomalies`: cut at `,` (when the
/// path, the anomaly text and the rendered times hold none) it gives eight
/// fields, the times in the order modification, access, change, birth.
pub proof fn lemma_record_csv_columns(r: RecordView, min: Severity)
    requires
        lacks(r.path, ','),
        lacks(crate::output::anomalies_text(r.anomalies, min), ','),
    ensures
        ({
            use_ts(r.mtime) && use_ts(r.atime) && use_ts(r.ctime) && use_ts(r.btime)
        }) ==> ({
            let f = cut_fields(crate::output::record_csv_line(r, min), ',');
            &&& f.len() == 8
            &&& f[0] == crate::output::csv_escape_spec(r.path)
            &&& f[1] == crate::output::inode_text(r.inode)
            &&& f[2] == crate::output::timestamp_text(r.mtime)
            &&& f[3] == crate::output::timestamp_text(r.atime)
            &&& f[4] == crate::output::timestamp_text(r.ctime)
            &&& f[5] == crate::output::timestamp_text(r.btime)
            &&& f[6] == crate::text::decimal_spec(r.size as nat)
            &&& f[7] == "\""@ + crate::output::csv_escape_spec(
                crate::output::anomalies_text(r.anomalies, min),
            ) + "\""@
        }),
{
    if use_ts(r.mtime) && use_ts(r.atime) && use_ts(r.ctime) && use_ts(r.btime) {
        reveal_strlit(",");
        reveal_strlit(",\"");
        reveal_strlit("\"");
        reveal_strlit("-");
        assert(","@ =~= seq![',']);
        let p = crate::output::csv_escape_spec(r.path);
        let i = crate::output::inode_text(r.inode);
        let m = crate::output::timestamp_text(r.mtime);
        let a = crate::output::timestamp_text(r.atime);
        let c = crate::output::timestamp_text(r.ctime);
        let b = crate::output::timestamp_text(r.btime);
        let z = crate::text::decimal_spec(r.size as nat);
        let q = "\""@ + crate::output::csv_escape_spec(crate::output::anomalies_text(r.anomalies, min))
            + "\""@;
        lemma_escape_lacks(r.path, ',');
        lemma_escape_lacks(crate::output::anomalies_text(r.anomalies, min), ',');
        lemma_decimal_no_bar(r.size as nat);
        if r.inode is Some {
            lemma_decimal_no_bar(r.inode->0 as nat);
        }
        assert(lacks(i, ','));
        assert(lacks(q, ','));
        lemma_cut_single(p, ',');
        let sep = seq![','];
        lemma_add_cut(p, i, ',');
        lemma_add_cut(p + sep + i, m, ',');
        lemma_add_cut(p + sep + i + sep + m, a, ',');
        lemma_add_cut(p + sep + i + sep + m + sep + a, c, ',');
        lemma_add_cut(p + sep + i + sep + m + sep + a + sep + c, b, ',');
        lemma_add_cut(p + sep + i + sep + m + sep + a + sep + c + sep + b, z, ',');
        lemma_add_cut(p + sep + i + sep + m + sep + a + sep + c + sep + b + sep + z, q, ',');
        assert(crate::output::record_csv_line(r, min) =~= p + sep + i + sep + m + sep + a + sep + c
            + sep + b + sep + z + sep + q);
    }
}

/// A rendered time holds no comma.
pub open spec fn use_ts(t: Option<Timestamp>) -> bool {
    lacks(crate::output::timestamp_text(t), ',')
}

/// An event's CSV line has the columns of the header
/// `timestamp,event_type,path,anomalies`.
pub proof fn lemma_event_csv_columns(e: crate::model::EventView, min: Severity)
    requires
        lacks(e.path, ','),
        lacks(crate::output::anomalies_text(e.anomalies, min), ','),
    ensures
        use_ts(Some(e.timestamp)) ==> ({
            let f = cut_fields(crate::output::event_csv_line(e, min), ',');
            &&& f.len() == 4
            &&& f[0] == crate::output::timestamp_text(Some(e.timestamp))
            &&& f[1] == crate::model::macb_label_spec(e.event_type)
            &&& f[2] == crate::output::csv_escape_spec(e.path)
            &&& f[3] == "\""@ + crate::output::csv_escape_spec(
                crate::output::anomalies_text(e.anomalies, min),
            ) + "\""@
        }),
{
    if use_ts(Some(e.timestamp)) {
        reveal_strlit(",");
        reveal_strlit(",\"");
        reveal_strlit("\"");
        assert(","@ =~= seq![',']);
        let t = crate::output::timestamp_text(Some(e.timestamp));
        let l = crate::model::macb_label_spec(e.event_type);
        let p = crate::output::csv_escape_spec(e.path);
        let q = "\""@ + crate::output::csv_escape_spec(crate::output::anomalies_text(e.anomalies, min))
            + "\""@;
        lemma_escape_lacks(e.path, ',');
        lemma_escape_lacks(crate::output::anomalies_text(e.anomalies, min), ',');
        assert(lacks(l, ','));
        assert(lacks(q, ','));
        lemma_cut_single(t, ',');
        let sep = seq![','];
        lemma_add_cut(t, l, ',');
        lemma_add_cut(t + sep + l, p, ',');
        lemma_add_cut(t + sep + l + sep + p, q, ',');
        assert(crate::output::event_csv_line(e, min) =~= t + sep + l + sep + p + sep + q);
    }
}

} // verus!
