use vstd::prelude::*;

use crate::clock::chrono_utc_format_ymd_hms;
use crate::model::{
    anomalies_view, events_view, macb_label_spec, records_view, severity_at_least,
    severity_label_spec, Anomaly, AnomalyView, EventView, MacbRecord, OutputFormat, RecordView,
    Severity, TimelineEvent, Timestamp, clone_opt_string,
};
use crate::text::{
    append_str, chars_of, decimal_spec, push_char, push_decimal, push_signed_decimal,
    signed_decimal_spec, u64_to_decimal,
};

verus! {

// ---------------------------------------------------------------------------
// Pieces shared by the text formats
// ---------------------------------------------------------------------------

/// A timestamp as `%Y-%m-%d %H:%M:%S UTC`, or `-` when absent.
pub open spec fn timestamp_text(t: Option<Timestamp>) -> Seq<char> {
    match t {
        Some(v) => chrono_utc_format_ymd_hms(v.spec_secs(), v.spec_nanos()),
        None => "-"@,
    }
}

pub fn format_timestamp(timestamp: Option<Timestamp>) -> (r: String)
    ensures
        r@ == timestamp_text(timestamp),
{
    match timestamp {
        Some(t) => t.format_ymd_hms(),
        None => {
            let mut out = String::new();
            append_str(&mut out, "-");
            out
        },
    }
}

/// One anomaly as `[SEVERITY] description`.
pub open spec fn anomaly_entry(a: AnomalyView) -> Seq<char> {
    "["@ + severity_label_spec(a.severity) + "] "@ + a.description
}

/// The entries of the anomalies at least as severe as `min`, in order.
pub open spec fn anomaly_entries(s: Seq<AnomalyView>, min: Severity) -> Seq<Seq<char>>
    decreases s.len(),
{
    if s.len() == 0 {
        seq![]
    } else if severity_at_least(s.last().severity, min) {
        anomaly_entries(s.drop_last(), min).push(anomaly_entry(s.last()))
    } else {
        anomaly_entries(s.drop_last(), min)
    }
}

/// The parts joined by a separator.
pub open spec fn join_spec(parts: Seq<Seq<char>>, sep: Seq<char>) -> Seq<char>
    decreases parts.len(),
{
    if parts.len() == 0 {
        seq![]
    } else if parts.len() == 1 {
        parts[0]
    } else {
        join_spec(parts.drop_last(), sep) + sep + parts.last()
    }
}

/// The anomalies at least as severe as `min`, as entries joined by `; `.
pub open spec fn anomalies_text(s: Seq<AnomalyView>, min: Severity) -> Seq<char> {
    join_spec(anomaly_entries(s, min), "; "@)
}

fn push_anomaly_entry(out: &mut String, a: &Anomaly)
    ensures
        final(out)@ == old(out)@ + anomaly_entry(a@),
{
    append_str(out, "[");
    append_str(out, a.severity.label());
    append_str(out, "] ");
    append_str(out, a.description.as_str());
    assert(final(out)@ =~= old(out)@ + anomaly_entry(a@));
}

pub fn format_anomalies(anomalies: &Vec<Anomaly>, min_severity: Severity) -> (r: String)
    ensures
        r@ == anomalies_text(anomalies_view(anomalies@), min_severity),
{
    let mut out = String::new();
    let mut count: usize = 0;
    let mut i: usize = 0;
    while i < anomalies.len()
        invariant
            i <= anomalies.len(),
            count == anomaly_entries(anomalies_view(anomalies@.take(i as int)), min_severity).len(),
            count <= i,
            out@ == join_spec(
                anomaly_entries(anomalies_view(anomalies@.take(i as int)), min_severity),
                "; "@,
            ),
        decreases anomalies.len() - i,
    {
        let ghost prev = anomaly_entries(anomalies_view(anomalies@.take(i as int)), min_severity);
        proof {
            let t = anomalies_view(anomalies@.take(i + 1));
            assert(t.drop_last() =~= anomalies_view(anomalies@.take(i as int)));
            assert(t.last() == anomalies@[i as int]@);
        }
        let a = &anomalies[i];
        if a.severity.at_least(min_severity) {
            if count > 0 {
                append_str(&mut out, "; ");
            }
            push_anomaly_entry(&mut out, a);
            proof {
                let next = prev.push(anomaly_entry(a@));
                assert(next.drop_last() =~= prev);
                if prev.len() == 0 {
                    assert(out@ =~= join_spec(next, "; "@));
                }
            }
            count += 1;
        }
        i += 1;
    }
    assert(anomalies@.take(anomalies.len() as int) =~= anomalies@);
    out
}

/// A CSV field body: every double quote doubled.
pub open spec fn csv_escape_spec(s: Seq<char>) -> Seq<char>
    decreases s.len(),
{
    if s.len() == 0 {
        seq![]
    } else if s.last() == '"' {
        csv_escape_spec(s.drop_last()) + seq!['"', '"']
    } else {
        csv_escape_spec(s.drop_last()).push(s.last())
    }
}

/// Appends `value` with every double quote doubled.
pub fn push_csv_escaped(out: &mut String, value: &str)
    ensures
        final(out)@ == old(out)@ + csv_escape_spec(value@),
{
    let v = chars_of(value);
    let ghost start = out@;
    let mut i: usize = 0;
    while i < v.len()
        invariant
            i <= v@.len(),
            v@ == value@,
            out@ == start + csv_escape_spec(value@.take(i as int)),
        decreases v.len() - i,
    {
        let c = v[i];
        assert(value@.take(i + 1).drop_last() =~= value@.take(i as int));
        if c == '"' {
            push_char(out, '"');
            push_char(out, '"');
            assert(out@ =~= start + csv_escape_spec(value@.take(i + 1)));
        } else {
            push_char(out, c);
            assert(out@ =~= start + csv_escape_spec(value@.take(i + 1)));
        }
        i += 1;
    }
    assert(value@.take(v.len() as int) =~= value@);
}

pub fn csv_escape(value: &str) -> (r: String)
    ensures
        r@ == csv_escape_spec(value@),
{
    let mut out = String::new();
    push_csv_escaped(&mut out, value);
    assert(out@ =~= csv_escape_spec(value@));
    out
}

// ---------------------------------------------------------------------------
// Bodyfile
// ---------------------------------------------------------------------------

/// The path with every backslash turned into a slash.
pub open spec fn forward_slashes(s: Seq<char>) -> Seq<char> {
    Seq::new(s.len(), |i: int| if s[i] == '\\' { '/' } else { s[i] })
}

/// The bodyfile name field: the path with forward slashes, marked when deleted.
pub open spec fn bodyfile_path_spec(r: RecordView) -> Seq<char> {
    if r.deleted {
        "*(deleted)*"@ + forward_slashes(r.path)
    } else {
        forward_slashes(r.path)
    }
}

pub(crate) fn push_forward_slashes(out: &mut String, path: &str)
    ensures
        final(out)@ == old(out)@ + forward_slashes(path@),
{
    let v = chars_of(path);
    let ghost start = out@;
    let mut i: usize = 0;
    while i < v.len()
        invariant
            i <= v@.len(),
            v@ == path@,
            out@ == start + forward_slashes(path@.take(i as int)),
        decreases v.len() - i,
    {
        let c = v[i];
        if c == '\\' {
            push_char(out, '/');
        } else {
            push_char(out, c);
        }
        assert(out@ =~= start + forward_slashes(path@.take(i + 1)));
        i += 1;
    }
    assert(path@.take(v.len() as int) =~= path@);
}

pub fn bodyfile_path(record: &MacbRecord) -> (r: String)
    ensures
        r@ == bodyfile_path_spec(record@),
{
    let mut out = String::new();
    if record.deleted {
        append_str(&mut out, "*(deleted)*");
    }
    push_forward_slashes(&mut out, record.path.as_str());
    assert(out@ =~= bodyfile_path_spec(record@));
    out
}

/// The bodyfile hash field: the MD5 digest, or `0` when there is none.
pub open spec fn bodyfile_hash_spec(r: RecordView) -> Seq<char> {
    match r.md5 {
        Some(h) => h,
        None => "0"@,
    }
}

/// Seconds since the epoch, or 0 when absent.
pub open spec fn epoch_secs_spec(t: Option<Timestamp>) -> i64 {
    match t {
        Some(v) => v.spec_secs(),
        None => 0,
    }
}

pub fn epoch_secs(timestamp: Option<Timestamp>) -> (r: i64)
    ensures
        r == epoch_secs_spec(timestamp),
{
    match timestamp {
        Some(t) => t.secs(),
        None => 0,
    }
}

/// The mode a record is rendered with: its own, or a default for its kind
/// (`0o040755` for a directory, `0o100644` otherwise).
pub open spec fn effective_mode(r: RecordView) -> u32 {
    match r.mode {
        Some(m) => m,
        None => if r.is_dir {
            0o040755u32
        } else {
            0o100644u32
        },
    }
}

/// The file-type letter of a mode, by its `S_IFMT` bits.
pub open spec fn file_type_char(mode: u32, is_dir: bool) -> char {
    let kind = mode & 0o170000u32;
    if kind == 0o040000u32 {
        'd'
    } else if kind == 0o120000u32 {
        'l'
    } else if kind == 0o100000u32 {
        '-'
    } else if kind == 0o140000u32 {
        's'
    } else if kind == 0o010000u32 {
        'p'
    } else if kind == 0o020000u32 {
        'b'
    } else if kind == 0o060000u32 {
        'c'
    } else if is_dir {
        'd'
    } else {
        '-'
    }
}

/// `c` when the permission bit is set, `-` otherwise.
pub open spec fn perm_char(mode: u32, bit: u32, c: char) -> char {
    if mode & bit != 0 {
        c
    } else {
        '-'
    }
}

/// The nine `rwxrwxrwx` permission letters of a mode.
pub open spec fn rwx_spec(mode: u32) -> Seq<char> {
    seq![
        perm_char(mode, 0o400u32, 'r'),
        perm_char(mode, 0o200u32, 'w'),
        perm_char(mode, 0o100u32, 'x'),
        perm_char(mode, 0o040u32, 'r'),
        perm_char(mode, 0o020u32, 'w'),
        perm_char(mode, 0o010u32, 'x'),
        perm_char(mode, 0o004u32, 'r'),
        perm_char(mode, 0o002u32, 'w'),
        perm_char(mode, 0o001u32, 'x'),
    ]
}

/// The bodyfile mode field, such as `-/rw-r--r--`.
pub open spec fn mode_text(mode: u32, is_dir: bool) -> Seq<char> {
    seq![file_type_char(mode, is_dir), '/'] + rwx_spec(mode)
}

fn file_type_letter(mode: u32, is_dir: bool) -> (r: char)
    ensures
        r == file_type_char(mode, is_dir),
{
    let kind = mode & 0o170000u32;
    if kind == 0o040000u32 {
        'd'
    } else if kind == 0o120000u32 {
        'l'
    } else if kind == 0o100000u32 {
        '-'
    } else if kind == 0o140000u32 {
        's'
    } else if kind == 0o010000u32 {
        'p'
    } else if kind == 0o020000u32 {
        'b'
    } else if kind == 0o060000u32 {
        'c'
    } else if is_dir {
        'd'
    } else {
        '-'
    }
}

fn perm_letter(mode: u32, bit: u32, c: char) -> (r: char)
    ensures
        r == perm_char(mode, bit, c),
{
    if mode & bit != 0 {
        c
    } else {
        '-'
    }
}

/// The nine permission letters of a mode, owner, group, then others.
fn format_rwx(mode: u32) -> (r: String)
    ensures
        r@ == rwx_spec(mode),
{
    let mut out = String::new();
    push_char(&mut out, perm_letter(mode, 0o400u32, 'r'));
    push_char(&mut out, perm_letter(mode, 0o200u32, 'w'));
    push_char(&mut out, perm_letter(mode, 0o100u32, 'x'));
    push_char(&mut out, perm_letter(mode, 0o040u32, 'r'));
    push_char(&mut out, perm_letter(mode, 0o020u32, 'w'));
    push_char(&mut out, perm_letter(mode, 0o010u32, 'x'));
    push_char(&mut out, perm_letter(mode, 0o004u32, 'r'));
    push_char(&mut out, perm_letter(mode, 0o002u32, 'w'));
    push_char(&mut out, perm_letter(mode, 0o001u32, 'x'));
    assert(out@ =~= rwx_spec(mode));
    out
}

/// The mode of a record in bodyfile form: file-type letter, `/`, then the
/// `rwx` letters; a record without a mode gets its kind's default.
pub fn format_bodyfile_mode(record: &MacbRecord) -> (r: String)
    ensures
        r@ == mode_text(effective_mode(record@), record.is_dir),
{
    let mode = match record.mode {
        Some(m) => m,
        None => if record.is_dir {
            0o040755u32
        } else {
            0o100644u32
        },
    };
    let mut out = String::new();
    push_char(&mut out, file_type_letter(mode, record.is_dir));
    push_char(&mut out, '/');
    let rwx = format_rwx(mode);
    append_str(&mut out, rwx.as_str());
    assert(out@ =~= mode_text(mode, record.is_dir));
    out
}

pub open spec fn opt_u64_or_zero(v: Option<u64>) -> u64 {
    match v {
        Some(x) => x,
        None => 0,
    }
}

pub open spec fn opt_u32_or_zero(v: Option<u32>) -> u32 {
    match v {
        Some(x) => x,
        None => 0,
    }
}

/// One bodyfile line (without its newline):
/// `MD5|name|inode|mode|uid|gid|size|atime|mtime|ctime|crtime`.
pub open spec fn bodyfile_line_spec(r: RecordView) -> Seq<char> {
    bodyfile_hash_spec(r) + "|"@ + bodyfile_path_spec(r) + "|"@ + decimal_spec(
        opt_u64_or_zero(r.inode) as nat,
    ) + "|"@ + mode_text(effective_mode(r), r.is_dir) + "|"@ + decimal_spec(
        opt_u32_or_zero(r.uid) as nat,
    ) + "|"@ + decimal_spec(opt_u32_or_zero(r.gid) as nat) + "|"@ + decimal_spec(r.size as nat)
        + "|"@ + signed_decimal_spec(epoch_secs_spec(r.atime) as int) + "|"@
        + signed_decimal_spec(epoch_secs_spec(r.mtime) as int) + "|"@ + signed_decimal_spec(
        epoch_secs_spec(r.ctime) as int,
    ) + "|"@ + signed_decimal_spec(epoch_secs_spec(r.btime) as int)
}

fn push_bodyfile_head(out: &mut String, record: &MacbRecord)
    ensures
        final(out)@ == old(out)@ + bodyfile_hash_spec(record@) + "|"@ + bodyfile_path_spec(record@)
            + "|"@ + decimal_spec(opt_u64_or_zero(record.inode) as nat) + "|"@ + mode_text(
            effective_mode(record@),
            record.is_dir,
        ) + "|"@,
{
    match &record.md5 {
        Some(h) => append_str(out, h.as_str()),
        None => append_str(out, "0"),
    }
    append_str(out, "|");
    let path = bodyfile_path(record);
    append_str(out, path.as_str());
    append_str(out, "|");
    let inode: u64 = match record.inode {
        Some(v) => v,
        None => 0,
    };
    push_decimal(out, inode);
    append_str(out, "|");
    let mode = format_bodyfile_mode(record);
    append_str(out, mode.as_str());
    append_str(out, "|");
}

fn push_bodyfile_tail(out: &mut String, record: &MacbRecord)
    ensures
        final(out)@ == old(out)@ + decimal_spec(opt_u32_or_zero(record.uid) as nat) + "|"@
            + decimal_spec(opt_u32_or_zero(record.gid) as nat) + "|"@ + decimal_spec(
            record.size as nat,
        ) + "|"@ + signed_decimal_spec(epoch_secs_spec(record.atime) as int) + "|"@
            + signed_decimal_spec(epoch_secs_spec(record.mtime) as int) + "|"@
            + signed_decimal_spec(epoch_secs_spec(record.ctime) as int) + "|"@
            + signed_decimal_spec(epoch_secs_spec(record.btime) as int),
{
    let uid: u32 = match record.uid {
        Some(v) => v,
        None => 0,
    };
    let gid: u32 = match record.gid {
        Some(v) => v,
        None => 0,
    };
    push_decimal(out, uid as u64);
    append_str(out, "|");
    push_decimal(out, gid as u64);
    append_str(out, "|");
    push_decimal(out, record.size);
    append_str(out, "|");
    push_signed_decimal(out, epoch_secs(record.atime));
    append_str(out, "|");
    push_signed_decimal(out, epoch_secs(record.mtime));
    append_str(out, "|");
    push_signed_decimal(out, epoch_secs(record.ctime));
    append_str(out, "|");
    push_signed_decimal(out, epoch_secs(record.btime));
}

/// One record as a bodyfile line, without the newline.
pub fn bodyfile_line(record: &MacbRecord) -> (r: String)
    ensures
        r@ == bodyfile_line_spec(record@),
{
    let mut out = String::new();
    push_bodyfile_head(&mut out, record);
    push_bodyfile_tail(&mut out, record);
    assert(out@ =~= bodyfile_line_spec(record@));
    out
}


/// Lines, each followed by a newline.
pub open spec fn lines_text(lines: Seq<Seq<char>>) -> Seq<char>
    decreases lines.len(),
{
    if lines.len() == 0 {
        seq![]
    } else {
        lines_text(lines.drop_last()) + lines.last() + "\n"@
    }
}

pub open spec fn bodyfile_lines(rs: Seq<RecordView>) -> Seq<Seq<char>> {
    Seq::new(rs.len(), |i: int| bodyfile_line_spec(rs[i]))
}

/// The records in Sleuth Kit mactime bodyfile format, one line each.
pub fn records_bodyfile(records: &[MacbRecord]) -> (r: String)
    ensures
        r@ == lines_text(bodyfile_lines(records_view(records@))),
{
    let mut out = String::new();
    let mut i: usize = 0;
    while i < records.len()
        invariant
            i <= records@.len(),
            out@ == lines_text(bodyfile_lines(records_view(records@.take(i as int)))),
        decreases records.len() - i,
    {
        let line = bodyfile_line(&records[i]);
        append_str(&mut out, line.as_str());
        append_str(&mut out, "\n");
        proof {
            let next = bodyfile_lines(records_view(records@.take(i + 1)));
            assert(next.drop_last() =~= bodyfile_lines(records_view(records@.take(i as int))));
            assert(next.last() == bodyfile_line_spec(records@[i as int]@));
        }
        i += 1;
    }
    assert(records@.take(records@.len() as int) =~= records@);
    out
}

// ---------------------------------------------------------------------------
// CSV
// ---------------------------------------------------------------------------

/// An inode number, or `-` when unknown.
pub open spec fn inode_text(inode: Option<u64>) -> Seq<char> {
    match inode {
        Some(v) => decimal_spec(v as nat),
        None => "-"@,
    }
}

pub fn format_inode(inode: Option<u64>) -> (r: String)
    ensures
        r@ == inode_text(inode),
{
    match inode {
        Some(v) => u64_to_decimal(v),
        None => {
            let mut out = String::new();
            append_str(&mut out, "-");
            out
        },
    }
}

pub open spec fn records_csv_header() -> Seq<char> {
    "path,inode,mtime,atime,ctime,btime,size,anomalies"@
}

pub open spec fn timeline_csv_header() -> Seq<char> {
    "timestamp,event_type,path,anomalies"@
}

/// One record as a CSV line (without its newline).
pub open spec fn record_csv_line(r: RecordView, min: Severity) -> Seq<char> {
    csv_escape_spec(r.path) + ","@ + inode_text(r.inode) + ","@ + timestamp_text(r.mtime) + ","@
        + timestamp_text(r.atime) + ","@ + timestamp_text(r.ctime) + ","@ + timestamp_text(
        r.btime,
    ) + ","@ + decimal_spec(r.size as nat) + ",\""@ + csv_escape_spec(
        anomalies_text(r.anomalies, min),
    ) + "\""@
}

/// One event as a CSV line (without its newline).
pub open spec fn event_csv_line(e: EventView, min: Severity) -> Seq<char> {
    timestamp_text(Some(e.timestamp)) + ","@ + macb_label_spec(e.event_type) + ","@
        + csv_escape_spec(e.path) + ",\""@ + csv_escape_spec(anomalies_text(e.anomalies, min))
        + "\""@
}

pub open spec fn record_csv_lines(rs: Seq<RecordView>, min: Severity) -> Seq<Seq<char>> {
    Seq::new(rs.len(), |i: int| record_csv_line(rs[i], min))
}

pub open spec fn event_csv_lines(es: Seq<EventView>, min: Severity) -> Seq<Seq<char>> {
    Seq::new(es.len(), |i: int| event_csv_line(es[i], min))
}

fn push_record_times(out: &mut String, record: &MacbRecord)
    ensures
        final(out)@ == old(out)@ + timestamp_text(record.mtime) + ","@ + timestamp_text(
            record.atime,
        ) + ","@ + timestamp_text(record.ctime) + ","@ + timestamp_text(record.btime),
{
    let t = format_timestamp(record.mtime);
    append_str(out, t.as_str());
    append_str(out, ",");
    let t = format_timestamp(record.atime);
    append_str(out, t.as_str());
    append_str(out, ",");
    let t = format_timestamp(record.ctime);
    append_str(out, t.as_str());
    append_str(out, ",");
    let t = format_timestamp(record.btime);
    append_str(out, t.as_str());
}

fn push_record_csv_head(out: &mut String, record: &MacbRecord)
    ensures
        final(out)@ == old(out)@ + csv_escape_spec(record.path@) + ","@ + inode_text(record.inode)
            + ","@ + timestamp_text(record.mtime) + ","@ + timestamp_text(record.atime) + ","@
            + timestamp_text(record.ctime) + ","@ + timestamp_text(record.btime) + ","@,
{
    push_csv_escaped(out, record.path.as_str());
    append_str(out, ",");
    let inode = format_inode(record.inode);
    append_str(out, inode.as_str());
    append_str(out, ",");
    push_record_times(out, record);
    append_str(out, ",");
}

fn push_record_csv_tail(out: &mut String, record: &MacbRecord, min_severity: Severity)
    ensures
        final(out)@ == old(out)@ + decimal_spec(record.size as nat) + ",\""@ + csv_escape_spec(
            anomalies_text(anomalies_view(record.anomalies@), min_severity),
        ) + "\""@,
{
    push_decimal(out, record.size);
    append_str(out, ",\"");
    let anomalies = format_anomalies(&record.anomalies, min_severity);
    push_csv_escaped(out, anomalies.as_str());
    append_str(out, "\"");
}

#[verifier::rlimit(30)]
fn push_record_csv_line(out: &mut String, record: &MacbRecord, min_severity: Severity)
    ensures
        final(out)@ == old(out)@ + record_csv_line(record@, min_severity),
{
    push_record_csv_head(out, record);
    push_record_csv_tail(out, record, min_severity);
    assert(final(out)@ =~= old(out)@ + record_csv_line(record@, min_severity));
}

fn push_event_csv_line(out: &mut String, event: &TimelineEvent, min_severity: Severity)
    ensures
        final(out)@ == old(out)@ + event_csv_line(event@, min_severity),
{
    let t = format_timestamp(Some(event.timestamp));
    append_str(out, t.as_str());
    append_str(out, ",");
    append_str(out, event.event_type.label());
    append_str(out, ",");
    push_csv_escaped(out, event.path.as_str());
    append_str(out, ",\"");
    let anomalies = format_anomalies(&event.anomalies, min_severity);
    push_csv_escaped(out, anomalies.as_str());
    append_str(out, "\"");
    assert(final(out)@ =~= old(out)@ + event_csv_line(event@, min_severity));
}

/// The records as CSV: a header line, then one line per record.
pub fn records_csv(records: &[MacbRecord], min_severity: Severity) -> (r: String)
    ensures
        r@ == records_csv_header() + "\n"@ + lines_text(
            record_csv_lines(records_view(records@), min_severity),
        ),
{
    let mut out = String::new();
    append_str(&mut out, "path,inode,mtime,atime,ctime,btime,size,anomalies");
    append_str(&mut out, "\n");
    let ghost head = out@;
    let mut i: usize = 0;
    while i < records.len()
        invariant
            i <= records@.len(),
            out@ == head + lines_text(record_csv_lines(records_view(records@.take(i as int)), min_severity)),
        decreases records.len() - i,
    {
        push_record_csv_line(&mut out, &records[i], min_severity);
        append_str(&mut out, "\n");
        proof {
            let next = record_csv_lines(records_view(records@.take(i + 1)), min_severity);
            assert(next.drop_last() =~= record_csv_lines(records_view(records@.take(i as int)), min_severity));
            assert(next.last() == record_csv_line(records@[i as int]@, min_severity));
        }
        i += 1;
    }
    assert(records@.take(records@.len() as int) =~= records@);
    out
}

/// The events as CSV: a header line, then one line per event.
pub fn timeline_csv(events: &[TimelineEvent], min_severity: Severity) -> (r: String)
    ensures
        r@ == timeline_csv_header() + "\n"@ + lines_text(
            event_csv_lines(events_view(events@), min_severity),
        ),
{
    let mut out = String::new();
    append_str(&mut out, "timestamp,event_type,path,anomalies");
    append_str(&mut out, "\n");
    let ghost head = out@;
    let mut i: usize = 0;
    while i < events.len()
        invariant
            i <= events@.len(),
            out@ == head + lines_text(event_csv_lines(events_view(events@.take(i as int)), min_severity)),
        decreases events.len() - i,
    {
        push_event_csv_line(&mut out, &events[i], min_severity);
        append_str(&mut out, "\n");
        proof {
            let next = event_csv_lines(events_view(events@.take(i + 1)), min_severity);
            assert(next.drop_last() =~= event_csv_lines(events_view(events@.take(i as int)), min_severity));
            assert(next.last() == event_csv_line(events@[i as int]@, min_severity));
        }
        i += 1;
    }
    assert(events@.take(events@.len() as int) =~= events@);
    out
}


// ---------------------------------------------------------------------------
// Table rows
// ---------------------------------------------------------------------------

/// The cells of one record in the table view.
#[derive(Debug)]
pub struct RecordRow {
    pub path: String,
    pub inode: String,
    pub mtime: String,
    pub atime: String,
    pub ctime: String,
    pub btime: String,
    pub size: String,
    pub anomalies: String,
}

/// The cells of one event in the table view.
#[derive(Debug)]
pub struct TimelineRow {
    pub timestamp: String,
    pub event_type: String,
    pub path: String,
    pub anomalies: String,
}

/// The cells a record is shown with.
pub open spec fn record_row_matches(row: RecordRow, r: RecordView, min: Severity) -> bool {
    &&& row.path@ == r.path
    &&& row.inode@ == inode_text(r.inode)
    &&& row.mtime@ == timestamp_text(r.mtime)
    &&& row.atime@ == timestamp_text(r.atime)
    &&& row.ctime@ == timestamp_text(r.ctime)
    &&& row.btime@ == timestamp_text(r.btime)
    &&& row.size@ == decimal_spec(r.size as nat)
    &&& row.anomalies@ == anomalies_text(r.anomalies, min)
}

/// The cells an event is shown with.
pub open spec fn timeline_row_matches(row: TimelineRow, e: EventView, min: Severity) -> bool {
    &&& row.timestamp@ == timestamp_text(Some(e.timestamp))
    &&& row.event_type@ == macb_label_spec(e.event_type)
    &&& row.path@ == e.path
    &&& row.anomalies@ == anomalies_text(e.anomalies, min)
}

pub fn record_row(record: &MacbRecord, min_severity: Severity) -> (r: RecordRow)
    ensures
        record_row_matches(r, record@, min_severity),
{
    RecordRow {
        path: record.path.clone(),
        inode: format_inode(record.inode),
        mtime: format_timestamp(record.mtime),
        atime: format_timestamp(record.atime),
        ctime: format_timestamp(record.ctime),
        btime: format_timestamp(record.btime),
        size: u64_to_decimal(record.size),
        anomalies: format_anomalies(&record.anomalies, min_severity),
    }
}

pub fn timeline_row(event: &TimelineEvent, min_severity: Severity) -> (r: TimelineRow)
    ensures
        timeline_row_matches(r, event@, min_severity),
{
    let mut event_type = String::new();
    append_str(&mut event_type, event.event_type.label());
    TimelineRow {
        timestamp: format_timestamp(Some(event.timestamp)),
        event_type,
        path: event.path.clone(),
        anomalies: format_anomalies(&event.anomalies, min_severity),
    }
}

/// One table row per record, in order.
pub fn record_rows(records: &[MacbRecord], min_severity: Severity) -> (r: Vec<RecordRow>)
    ensures
        r@.len() == records@.len(),
        forall|i: int|
            0 <= i < records@.len() ==> record_row_matches(
                #[trigger] r@[i],
                records@[i]@,
                min_severity,
            ),
{
    let mut rows: Vec<RecordRow> = Vec::new();
    let mut i: usize = 0;
    while i < records.len()
        invariant
            i <= records@.len(),
            rows@.len() == i,
            forall|k: int|
                0 <= k < i ==> record_row_matches(#[trigger] rows@[k], records@[k]@, min_severity),
        decreases records.len() - i,
    {
        rows.push(record_row(&records[i], min_severity));
        i += 1;
    }
    rows
}

/// One table row per event, in order.
pub fn timeline_rows(events: &[TimelineEvent], min_severity: Severity) -> (r: Vec<TimelineRow>)
    ensures
        r@.len() == events@.len(),
        forall|i: int|
            0 <= i < events@.len() ==> timeline_row_matches(
                #[trigger] r@[i],
                events@[i]@,
                min_severity,
            ),
{
    let mut rows: Vec<TimelineRow> = Vec::new();
    let mut i: usize = 0;
    while i < events.len()
        invariant
            i <= events@.len(),
            rows@.len() == i,
            forall|k: int|
                0 <= k < i ==> timeline_row_matches(#[trigger] rows@[k], events@[k]@, min_severity),
        decreases events.len() - i,
    {
        rows.push(timeline_row(&events[i], min_severity));
        i += 1;
    }
    rows
}

// ---------------------------------------------------------------------------
// JSON payloads
// ---------------------------------------------------------------------------

/// The anomalies at least as severe as `min`, in order.
pub open spec fn anomalies_at_least(s: Seq<AnomalyView>, min: Severity) -> Seq<AnomalyView>
    decreases s.len(),
{
    if s.len() == 0 {
        seq![]
    } else if severity_at_least(s.last().severity, min) {
        anomalies_at_least(s.drop_last(), min).push(s.last())
    } else {
        anomalies_at_least(s.drop_last(), min)
    }
}

pub fn filter_anomalies(anomalies: &Vec<Anomaly>, min_severity: Severity) -> (r: Vec<Anomaly>)
    ensures
        anomalies_view(r@) == anomalies_at_least(anomalies_view(anomalies@), min_severity),
{
    let mut out: Vec<Anomaly> = Vec::new();
    let mut i: usize = 0;
    while i < anomalies.len()
        invariant
            i <= anomalies@.len(),
            anomalies_view(out@) == anomalies_at_least(
                anomalies_view(anomalies@.take(i as int)),
                min_severity,
            ),
        decreases anomalies.len() - i,
    {
        proof {
            let t = anomalies_view(anomalies@.take(i + 1));
            assert(t.drop_last() =~= anomalies_view(anomalies@.take(i as int)));
            assert(t.last() == anomalies@[i as int]@);
        }
        if anomalies[i].severity.at_least(min_severity) {
            let copy = anomalies[i].clone();
            out.push(copy);
            assert(anomalies_view(out@) =~= anomalies_at_least(
                anomalies_view(anomalies@.take(i as int)),
                min_severity,
            ).push(anomalies@[i as int]@));
        }
        i += 1;
    }
    assert(anomalies@.take(anomalies@.len() as int) =~= anomalies@);
    out
}

/// A record as it is serialised: unchanged but for the anomalies below `min`.
pub open spec fn json_record_spec(r: RecordView, min: Severity) -> RecordView {
    RecordView { anomalies: anomalies_at_least(r.anomalies, min), ..r }
}

/// An event as it is serialised: unchanged but for the anomalies below `min`.
pub open spec fn json_event_spec(e: EventView, min: Severity) -> EventView {
    EventView { anomalies: anomalies_at_least(e.anomalies, min), ..e }
}

pub fn json_records(records: &[MacbRecord], min_severity: Severity) -> (r: Vec<MacbRecord>)
    ensures
        r@.len() == records@.len(),
        forall|i: int|
            0 <= i < records@.len() ==> (#[trigger] r@[i])@ == json_record_spec(
                records@[i]@,
                min_severity,
            ),
{
    let mut out: Vec<MacbRecord> = Vec::new();
    let mut i: usize = 0;
    while i < records.len()
        invariant
            i <= records@.len(),
            out@.len() == i,
            forall|k: int|
                0 <= k < i ==> (#[trigger] out@[k])@ == json_record_spec(records@[k]@, min_severity),
        decreases records.len() - i,
    {
        let rec = &records[i];
        let copy = MacbRecord {
            path: rec.path.clone(),
            inode: rec.inode,
            mtime: rec.mtime,
            atime: rec.atime,
            ctime: rec.ctime,
            btime: rec.btime,
            size: rec.size,
            mode: rec.mode,
            uid: rec.uid,
            gid: rec.gid,
            md5: clone_opt_string(&rec.md5),
            sha256: clone_opt_string(&rec.sha256),
            deleted: rec.deleted,
            is_dir: rec.is_dir,
            anomalies: filter_anomalies(&rec.anomalies, min_severity),
        };
        out.push(copy);
        i += 1;
    }
    out
}

pub fn json_timeline(events: &[TimelineEvent], min_severity: Severity) -> (r: Vec<TimelineEvent>)
    ensures
        r@.len() == events@.len(),
        forall|i: int|
            0 <= i < events@.len() ==> (#[trigger] r@[i])@ == json_event_spec(
                events@[i]@,
                min_severity,
            ),
{
    let mut out: Vec<TimelineEvent> = Vec::new();
    let mut i: usize = 0;
    while i < events.len()
        invariant
            i <= events@.len(),
            out@.len() == i,
            forall|k: int|
                0 <= k < i ==> (#[trigger] out@[k])@ == json_event_spec(events@[k]@, min_severity),
        decreases events.len() - i,
    {
        let e = &events[i];
        let copy = TimelineEvent {
            timestamp: e.timestamp,
            event_type: e.event_type,
            path: e.path.clone(),
            anomalies: filter_anomalies(&e.anomalies, min_severity),
        };
        out.push(copy);
        i += 1;
    }
    out
}

// ---------------------------------------------------------------------------
// Choosing the output
// ---------------------------------------------------------------------------

/// What is to be written for a list of records.
pub enum RecordsOutput {
    /// Finished text (CSV or bodyfile).
    Text(String),
    /// Rows to lay out as a table.
    Table(Vec<RecordRow>),
    /// Records to serialise as pretty JSON.
    Json(Vec<MacbRecord>),
}

/// What is to be written for a timeline.
pub enum TimelineOutput {
    Text(String),
    Table(Vec<TimelineRow>),
    Json(Vec<TimelineEvent>),
}

/// Why a timeline cannot be written.
#[derive(Debug, Clone, Copy, PartialEq, Eq, Structural)]
pub enum OutputError {
    /// Bodyfile lines describe files, not events.
    BodyfileTimeline,
}

impl OutputError {
    pub fn message(&self) -> (r: String)
        ensures
            r@ == "bodyfile output is only supported for the scan command"@,
    {
        let mut out = String::new();
        append_str(&mut out, "bodyfile output is only supported for the scan command");
        out
    }
}

/// The output for records in each format.
pub open spec fn records_output_matches(
    out: RecordsOutput,
    rs: Seq<MacbRecord>,
    format: OutputFormat,
    min: Severity,
) -> bool {
    match format {
        OutputFormat::Table => out matches RecordsOutput::Table(rows) && rows@.len() == rs.len()
            && forall|i: int|
            0 <= i < rs.len() ==> record_row_matches(#[trigger] rows@[i], rs[i]@, min),
        OutputFormat::Json => out matches RecordsOutput::Json(js) && js@.len() == rs.len()
            && forall|i: int|
            0 <= i < rs.len() ==> (#[trigger] js@[i])@ == json_record_spec(rs[i]@, min),
        OutputFormat::Csv => out matches RecordsOutput::Text(t) && t@ == records_csv_header()
            + "\n"@ + lines_text(record_csv_lines(records_view(rs), min)),
        OutputFormat::Bodyfile => out matches RecordsOutput::Text(t) && t@ == lines_text(
            bodyfile_lines(records_view(rs)),
        ),
    }
}

/// The output for events in each format but bodyfile.
pub open spec fn timeline_output_matches(
    out: TimelineOutput,
    es: Seq<TimelineEvent>,
    format: OutputFormat,
    min: Severity,
) -> bool {
    match format {
        OutputFormat::Table => out matches TimelineOutput::Table(rows) && rows@.len() == es.len()
            && forall|i: int|
            0 <= i < es.len() ==> timeline_row_matches(#[trigger] rows@[i], es[i]@, min),
        OutputFormat::Json => out matches TimelineOutput::Json(js) && js@.len() == es.len()
            && forall|i: int|
            0 <= i < es.len() ==> (#[trigger] js@[i])@ == json_event_spec(es[i]@, min),
        OutputFormat::Csv => out matches TimelineOutput::Text(t) && t@ == timeline_csv_header()
            + "\n"@ + lines_text(event_csv_lines(events_view(es), min)),
        OutputFormat::Bodyfile => false,
    }
}

/// Prepares records for writing in the chosen format; anomalies below
/// `min_severity` are left out (the bodyfile format shows none).
pub fn render_records(records: &[MacbRecord], format: OutputFormat, min_severity: Severity) -> (r:
    RecordsOutput)
    ensures
        records_output_matches(r, records@, format, min_severity),
{
    match format {
        OutputFormat::Table => RecordsOutput::Table(record_rows(records, min_severity)),
        OutputFormat::Json => RecordsOutput::Json(json_records(records, min_severity)),
        OutputFormat::Csv => RecordsOutput::Text(records_csv(records, min_severity)),
        OutputFormat::Bodyfile => RecordsOutput::Text(records_bodyfile(records)),
    }
}

/// Prepares a timeline for writing in the chosen format; the bodyfile format
/// is refused.
pub fn render_timeline(events: &[TimelineEvent], format: OutputFormat, min_severity: Severity) -> (r:
    Result<TimelineOutput, OutputError>)
    ensures
        format == OutputFormat::Bodyfile <==> r == Err::<TimelineOutput, OutputError>(
            OutputError::BodyfileTimeline,
        ),
        r matches Ok(out) ==> timeline_output_matches(out, events@, format, min_severity),
{
    match format {
        OutputFormat::Table => Ok(TimelineOutput::Table(timeline_rows(events, min_severity))),
        OutputFormat::Json => Ok(TimelineOutput::Json(json_timeline(events, min_severity))),
        OutputFormat::Csv => Ok(TimelineOutput::Text(timeline_csv(events, min_severity))),
        OutputFormat::Bodyfile => Err(OutputError::BodyfileTimeline),
    }
}

} // verus!
