use vstd::prelude::*;

use crate::clock::chrono_utc_valid;
use crate::model::{
    Anomaly, AnomalyRule, AnomalyView, MacbRecord, MacbType, RecordView, Severity, Timestamp,
};
use crate::scanner::{opt_ts_parts, path_selected, path_selected_spec, ScanOptions};
use crate::text::{append_str, ascii_lower_spec, decimal_spec, push_decimal, str_eq,
    to_ascii_lowercase, trim, trim_spec,
};

verus! {

pub const TSK_IMG_TYPE_DETECT: u32 = 0;
pub const TSK_IMG_TYPE_RAW: u32 = 0x0000_0001;
pub const TSK_IMG_TYPE_AFF_AFF: u32 = 0x0000_0004;
pub const TSK_IMG_TYPE_AFF_AFD: u32 = 0x0000_0005;
pub const TSK_IMG_TYPE_EWF: u32 = 0x0000_000e;

pub const TSK_FS_TYPE_NTFS: u32 = 0x0000_0001;
pub const TSK_FS_TYPE_FAT12: u32 = 0x0000_0008;
pub const TSK_FS_TYPE_FAT16: u32 = 0x0000_0009;
pub const TSK_FS_TYPE_FAT32: u32 = 0x0000_000a;
pub const TSK_FS_TYPE_EXT2: u32 = 0x0000_0004;

pub const TSK_VS_PART_FLAG_ALLOC: u8 = 0x01;
pub const TSK_FS_META_TYPE_REG: u32 = 1;
pub const TSK_FS_META_TYPE_DIR: u32 = 2;
pub const TSK_FS_DIR_WALK_FLAG_UNALLOC: u32 = 0x02;
pub const TSK_FS_META_FLAG_UNALLOC: u8 = 0x02;
pub const TSK_FS_META_FLAG_ORPHAN: u8 = 0x20;

/// The size of one read when hashing a file inside an image.
pub const IMAGE_READ_CHUNK: u64 = 65536;

/// The extension std's `Path::extension` finds in a path, if any.
pub uninterp spec fn std_path_extension(path: Seq<char>) -> Option<Seq<char>>;

/// The file stem std's `Path::file_stem` finds in a path, if any.
pub uninterp spec fn std_path_file_stem(path: Seq<char>) -> Option<Seq<char>>;

/// The parent std's `Path::parent` finds for a path, if any.
pub uninterp spec fn std_path_parent(path: Seq<char>) -> Option<Seq<char>>;

/// The path std's `Path::join` forms from a base and a further part.
pub uninterp spec fn std_path_join(base: Seq<char>, part: Seq<char>) -> Seq<char>;

/// std `Path::extension` of a path given as text.
#[verifier::external_body]
fn path_extension(path: &str) -> (r: Option<String>)
    ensures
        opt_string_seq(r) == std_path_extension(path@),
{
    match std::path::Path::new(path).extension() {
        Some(e) => Some(e.to_string_lossy().into_owned()),
        None => None,
    }
}

/// std `Path::file_stem` of a path given as text.
#[verifier::external_body]
fn path_file_stem(path: &str) -> (r: Option<String>)
    ensures
        opt_string_seq(r) == std_path_file_stem(path@),
{
    match std::path::Path::new(path).file_stem() {
        Some(e) => Some(e.to_string_lossy().into_owned()),
        None => None,
    }
}

/// std `Path::parent` of a path given as text.
#[verifier::external_body]
fn path_parent(path: &str) -> (r: Option<String>)
    ensures
        opt_string_seq(r) == std_path_parent(path@),
{
    match std::path::Path::new(path).parent() {
        Some(p) => Some(p.to_string_lossy().into_owned()),
        None => None,
    }
}

/// std `Path::join` of two paths given as text.
#[verifier::external_body]
fn path_join(base: &str, part: &str) -> (r: String)
    ensures
        r@ == std_path_join(base@, part@),
{
    std::path::Path::new(base).join(part).to_string_lossy().into_owned()
}

pub open spec fn opt_string_seq(s: Option<String>) -> Option<Seq<char>> {
    match s {
        Some(v) => Some(v@),
        None => None,
    }
}

/// The libtsk image type an extension (compared without regard to ASCII
/// case) names; detection by libtsk for any other extension or none.
pub open spec fn image_type_for_extension_spec(ext: Option<Seq<char>>) -> u32 {
    match ext {
        Some(raw) => {
            let e = ascii_lower_spec(raw);
            if e == "e01"@ || e == "ex01"@ || e == "e02"@ || e == "e03"@ {
                TSK_IMG_TYPE_EWF
            } else if e == "aff"@ {
                TSK_IMG_TYPE_AFF_AFF
            } else if e == "afd"@ {
                TSK_IMG_TYPE_AFF_AFD
            } else if e == "raw"@ || e == "dd"@ || e == "img"@ {
                TSK_IMG_TYPE_RAW
            } else {
                TSK_IMG_TYPE_DETECT
            }
        },
        None => TSK_IMG_TYPE_DETECT,
    }
}

/// The libtsk image type of an image path, by its extension.
pub open spec fn image_type_spec(path: Seq<char>) -> u32 {
    image_type_for_extension_spec(std_path_extension(path))
}

pub open spec fn opt_str_seq(s: Option<&str>) -> Option<Seq<char>> {
    match s {
        Some(v) => Some(v@),
        None => None,
    }
}

pub fn image_type_for_extension(ext: Option<&str>) -> (r: u32)
    ensures
        r == image_type_for_extension_spec(opt_str_seq(ext)),
{
    match ext {
        Some(raw) => {
            let lower = to_ascii_lowercase(raw);
            let e = lower.as_str();
            if str_eq(e, "e01") || str_eq(e, "ex01") || str_eq(e, "e02") || str_eq(e, "e03") {
                TSK_IMG_TYPE_EWF
            } else if str_eq(e, "aff") {
                TSK_IMG_TYPE_AFF_AFF
            } else if str_eq(e, "afd") {
                TSK_IMG_TYPE_AFF_AFD
            } else if str_eq(e, "raw") || str_eq(e, "dd") || str_eq(e, "img") {
                TSK_IMG_TYPE_RAW
            } else {
                TSK_IMG_TYPE_DETECT
            }
        },
        None => TSK_IMG_TYPE_DETECT,
    }
}

pub fn detect_image_type(path: &str) -> (r: u32)
    ensures
        r == image_type_spec(path@),
{
    let ext = path_extension(path);
    match ext {
        Some(e) => image_type_for_extension(Some(e.as_str())),
        None => image_type_for_extension(None),
    }
}

/// The four timestamps libtsk reports for a file, in seconds since the epoch
/// (zero or less when unset).
#[derive(Debug, Clone, Copy)]
pub struct TskMetaTimes {
    pub crtime: i64,
    pub atime: i64,
    pub mtime: i64,
    pub ctime: i64,
}

/// A libtsk time as a timestamp: none when zero or negative, or when chrono
/// cannot represent it.
pub open spec fn tsk_time_spec(secs: i64) -> Option<(i64, u32)> {
    if secs <= 0 || !chrono_utc_valid(secs, 0) {
        None
    } else {
        Some((secs, 0u32))
    }
}

pub fn timestamp_from_unix(secs: i64) -> (r: Option<Timestamp>)
    ensures
        opt_ts_parts(r) == tsk_time_spec(secs),
{
    if secs <= 0 {
        return None;
    }
    Timestamp::from_secs(secs)
}

/// FAT keeps no change time.
pub open spec fn is_fat(fs_type: u32) -> bool {
    fs_type == TSK_FS_TYPE_FAT12 || fs_type == TSK_FS_TYPE_FAT16 || fs_type == TSK_FS_TYPE_FAT32
}

/// (M, A, C, B) of a file on a filesystem of the given type.
pub open spec fn tsk_macb_spec(fs_type: u32, times: TskMetaTimes) -> (
    Option<(i64, u32)>,
    Option<(i64, u32)>,
    Option<(i64, u32)>,
    Option<(i64, u32)>,
) {
    (
        tsk_time_spec(times.mtime),
        tsk_time_spec(times.atime),
        if is_fat(fs_type) {
            None
        } else {
            tsk_time_spec(times.ctime)
        },
        tsk_time_spec(times.crtime),
    )
}

pub open spec fn macb_parts(
    t: (Option<Timestamp>, Option<Timestamp>, Option<Timestamp>, Option<Timestamp>),
) -> (Option<(i64, u32)>, Option<(i64, u32)>, Option<(i64, u32)>, Option<(i64, u32)>) {
    (opt_ts_parts(t.0), opt_ts_parts(t.1), opt_ts_parts(t.2), opt_ts_parts(t.3))
}

/// The (M, A, C, B) timestamps of a file from libtsk's times; FAT has no
/// change time.
pub fn map_tsk_timestamps(fs_type: u32, times: &TskMetaTimes) -> (r: (
    Option<Timestamp>,
    Option<Timestamp>,
    Option<Timestamp>,
    Option<Timestamp>,
))
    ensures
        macb_parts(r) == tsk_macb_spec(fs_type, *times),
{
    let mtime = timestamp_from_unix(times.mtime);
    let atime = timestamp_from_unix(times.atime);
    if fs_type == TSK_FS_TYPE_FAT12 || fs_type == TSK_FS_TYPE_FAT16 || fs_type == TSK_FS_TYPE_FAT32 {
        let btime = timestamp_from_unix(times.crtime);
        (mtime, atime, None, btime)
    } else {
        let ctime = timestamp_from_unix(times.ctime);
        let btime = timestamp_from_unix(times.crtime);
        (mtime, atime, ctime, btime)
    }
}

/// On NTFS the `$STANDARD_INFORMATION` times, when libtsk gave them, are
/// mapped; otherwise the file's general times are.
pub fn map_ntfs_times(
    fs_type: u32,
    standard_info: Option<TskMetaTimes>,
    meta_times: &TskMetaTimes,
) -> (r: (Option<Timestamp>, Option<Timestamp>, Option<Timestamp>, Option<Timestamp>))
    ensures
        macb_parts(r) == tsk_macb_spec(
            fs_type,
            match standard_info {
                Some(si) => if fs_type == TSK_FS_TYPE_NTFS {
                    si
                } else {
                    *meta_times
                },
                None => *meta_times,
            },
        ),
{
    match standard_info {
        Some(si) => if fs_type == TSK_FS_TYPE_NTFS {
            map_tsk_timestamps(fs_type, &si)
        } else {
            map_tsk_timestamps(fs_type, meta_times)
        },
        None => map_tsk_timestamps(fs_type, meta_times),
    }
}

/// Two NTFS times disagree: both are set and they lie more than one second
/// apart.
pub open spec fn timestamps_differ_spec(left: i64, right: i64) -> bool {
    left > 0 && right > 0 && (left - right > 1 || right - left > 1)
}

pub fn timestamps_differ(left: i64, right: i64) -> (r: bool)
    ensures
        r == timestamps_differ_spec(left, right),
{
    if left <= 0 || right <= 0 {
        return false;
    }
    let diff: i64 = left - right;
    let magnitude: i64 = if diff < 0 {
        -diff
    } else {
        diff
    };
    magnitude > 1
}

/// The labels of the NTFS times whose two copies disagree, in the order
/// mtime, crtime, atime, ctime.
pub open spec fn ntfs_mismatch_labels(si: TskMetaTimes, fname: TskMetaTimes) -> Seq<Seq<char>> {
    (if timestamps_differ_spec(si.mtime, fname.mtime) {
        seq!["mtime"@]
    } else {
        seq![]
    }) + (if timestamps_differ_spec(si.crtime, fname.crtime) {
        seq!["crtime"@]
    } else {
        seq![]
    }) + (if timestamps_differ_spec(si.atime, fname.atime) {
        seq!["atime"@]
    } else {
        seq![]
    }) + (if timestamps_differ_spec(si.ctime, fname.ctime) {
        seq!["ctime"@]
    } else {
        seq![]
    })
}

/// The parts joined by `, `.
pub open spec fn comma_join(parts: Seq<Seq<char>>) -> Seq<char>
    decreases parts.len(),
{
    if parts.len() == 0 {
        seq![]
    } else if parts.len() == 1 {
        parts[0]
    } else {
        comma_join(parts.drop_last()) + ", "@ + parts.last()
    }
}

/// The finding for an NTFS file whose `$STANDARD_INFORMATION` and
/// `$FILE_NAME` times disagree, if they do.
pub open spec fn ntfs_mismatch_spec(fs_type: u32, times: Option<(TskMetaTimes, TskMetaTimes)>) -> Option<
    AnomalyView,
> {
    match times {
        Some(pair) => {
            let labels = ntfs_mismatch_labels(pair.0, pair.1);
            if fs_type != TSK_FS_TYPE_NTFS || labels.len() == 0 {
                None
            } else {
                Some(
                    AnomalyView {
                        rule: AnomalyRule::NtfsSiFnMismatch,
                        severity: Severity::High,
                        description: "NTFS $STANDARD_INFORMATION and $FILE_NAME timestamps differ ("@
                            + comma_join(labels) + ")"@,
                        timestamps_involved: seq![
                            MacbType::Modified,
                            MacbType::Born,
                            MacbType::Accessed,
                            MacbType::Changed,
                        ],
                    },
                )
            }
        },
        None => None,
    }
}

fn push_label(out: &mut String, count: &mut usize, differ: bool, label: &str)
    requires
        *old(count) < 4,
    ensures
        differ ==> *final(count) == *old(count) + 1,
        !differ ==> *final(count) == *old(count),
        !differ ==> final(out)@ == old(out)@,
        differ && *old(count) == 0 ==> final(out)@ == old(out)@ + label@,
        differ && *old(count) > 0 ==> final(out)@ == old(out)@ + ", "@ + label@,
{
    if differ {
        if *count > 0 {
            append_str(out, ", ");
        }
        append_str(out, label);
        *count = *count + 1;
    }
}

/// Checks an NTFS file's `$STANDARD_INFORMATION` times against its
/// `$FILE_NAME` times (`times`, when libtsk gave the file's metadata).
pub fn detect_ntfs_attr_mismatch(fs_type: u32, times: Option<(TskMetaTimes, TskMetaTimes)>) -> (r:
    Option<Anomaly>)
    ensures
        match (r, ntfs_mismatch_spec(fs_type, times)) {
            (Some(a), Some(v)) => a@ == v,
            (None, None) => true,
            _ => false,
        },
{
    if fs_type != TSK_FS_TYPE_NTFS {
        return None;
    }
    let (si, fname) = match times {
        Some(pair) => pair,
        None => {
            return None;
        },
    };
    let mut labels = String::new();
    let mut count: usize = 0;
    let ghost l1 = if timestamps_differ_spec(si.mtime, fname.mtime) { seq!["mtime"@] } else { seq![] };
    let ghost l2 = l1 + if timestamps_differ_spec(si.crtime, fname.crtime) { seq!["crtime"@] } else { seq![] };
    let ghost l3 = l2 + if timestamps_differ_spec(si.atime, fname.atime) { seq!["atime"@] } else { seq![] };
    let ghost l4 = l3 + if timestamps_differ_spec(si.ctime, fname.ctime) { seq!["ctime"@] } else { seq![] };
    proof {
        reveal_strlit("mtime");
        reveal_strlit("crtime");
        reveal_strlit("atime");
        reveal_strlit("ctime");
    }
    push_label(&mut labels, &mut count, timestamps_differ(si.mtime, fname.mtime), "mtime");
    assert(count == l1.len() && labels@ == comma_join(l1)) by {
        if l1.len() == 1 {
            assert(l1[0] == "mtime"@);
        }
    }
    push_label(&mut labels, &mut count, timestamps_differ(si.crtime, fname.crtime), "crtime");
    assert(count == l2.len() && labels@ == comma_join(l2)) by {
        assert(l2.drop_last() =~= l1 || l2 =~= l1);
    }
    push_label(&mut labels, &mut count, timestamps_differ(si.atime, fname.atime), "atime");
    assert(count == l3.len() && labels@ == comma_join(l3)) by {
        assert(l3.drop_last() =~= l2 || l3 =~= l2);
    }
    push_label(&mut labels, &mut count, timestamps_differ(si.ctime, fname.ctime), "ctime");
    assert(count == l4.len() && labels@ == comma_join(l4)) by {
        assert(l4.drop_last() =~= l3 || l4 =~= l3);
    }
    assert(l4 =~= ntfs_mismatch_labels(si, fname));
    if count == 0 {
        return None;
    }
    let mut description = String::new();
    append_str(&mut description, "NTFS $STANDARD_INFORMATION and $FILE_NAME timestamps differ (");
    append_str(&mut description, labels.as_str());
    append_str(&mut description, ")");
    let mut involved: Vec<MacbType> = Vec::new();
    involved.push(MacbType::Modified);
    involved.push(MacbType::Born);
    involved.push(MacbType::Accessed);
    involved.push(MacbType::Changed);
    let anomaly = Anomaly {
        rule: AnomalyRule::NtfsSiFnMismatch,
        severity: Severity::High,
        description,
        timestamps_involved: involved,
    };
    assert(anomaly@.timestamps_involved =~= seq![
        MacbType::Modified,
        MacbType::Born,
        MacbType::Accessed,
        MacbType::Changed,
    ]);
    Some(anomaly)
}


// ---------------------------------------------------------------------------
// Partitions
// ---------------------------------------------------------------------------

/// One entry of an image's partition table.
#[derive(Debug)]
pub struct PartitionInfo {
    /// 1-based number among the allocated partitions; 0 for the others.
    pub slot: u32,
    pub start_sector: u64,
    pub length_sectors: u64,
    pub byte_offset: u64,
    pub description: String,
    pub allocated: bool,
}

/// Gathers partition-table entries as libtsk walks them, numbering the
/// allocated ones from 1.
#[derive(Debug)]
pub struct PartitionCollector {
    pub partitions: Vec<PartitionInfo>,
    pub block_size: u32,
    pub allocated_slot: u32,
}

impl PartitionCollector {
    pub fn new(block_size: u32) -> (r: PartitionCollector)
        ensures
            r.partitions@.len() == 0,
            r.block_size == block_size,
            r.allocated_slot == 0,
    {
        PartitionCollector { partitions: Vec::new(), block_size, allocated_slot: 0 }
    }

    /// Records one walked entry: its start and length in sectors, its libtsk
    /// flags and its description (none when libtsk gave none; trimmed
    /// otherwise).
    pub fn collect(&mut self, start: u64, len: u64, flags: u8, description: Option<&str>)
        requires
            start * old(self).block_size <= u64::MAX,
            old(self).allocated_slot < u32::MAX,
        ensures
            ({
                let allocated = flags & TSK_VS_PART_FLAG_ALLOC != 0;
                let p = final(self).partitions@.last();
                &&& final(self).partitions@.len() == old(self).partitions@.len() + 1
                &&& final(self).partitions@.drop_last() == old(self).partitions@
                &&& final(self).block_size == old(self).block_size
                &&& final(self).allocated_slot == if allocated {
                    old(self).allocated_slot + 1
                } else {
                    old(self).allocated_slot as int
                }
                &&& p.allocated == allocated
                &&& p.slot == if allocated {
                    old(self).allocated_slot + 1
                } else {
                    0
                }
                &&& p.start_sector == start
                &&& p.length_sectors == len
                &&& p.byte_offset == start * old(self).block_size
                &&& p.description@ == match description {
                    Some(d) => trim_spec(d@),
                    None => Seq::<char>::empty(),
                }
            }),
    {
        let allocated = flags & TSK_VS_PART_FLAG_ALLOC != 0;
        let slot = if allocated {
            self.allocated_slot = self.allocated_slot + 1;
            self.allocated_slot
        } else {
            0
        };
        let text = match description {
            Some(d) => trim(d),
            None => String::new(),
        };
        let byte_offset = start * (self.block_size as u64);
        self.partitions.push(
            PartitionInfo {
                slot,
                start_sector: start,
                length_sectors: len,
                byte_offset,
                description: text,
                allocated,
            },
        );
        assert(self.partitions@.drop_last() =~= old(self).partitions@);
    }
}

/// Why a partition or filesystem could not be chosen.
#[derive(Debug)]
pub enum PartitionError {
    /// `--partition 0`.
    ZeroBased,
    /// libtsk found no partition table; holds libtsk's message.
    NoPartitionTable(String),
    /// The partition table has no entries.
    EmptyTable,
    /// No allocated partition has the number; holds the table of those there are.
    NotFound { partition: u32, summary: String },
    /// No offset held a filesystem; holds the table tried and libtsk's last message.
    NoFilesystem { summary: String, last_error: String },
}

pub open spec fn partition_error_message_spec(e: PartitionError) -> Seq<char> {
    match e {
        PartitionError::ZeroBased => "partition numbers are 1-based"@,
        PartitionError::NoPartitionTable(m) => "no partition table found in image: "@ + m@,
        PartitionError::EmptyTable => "partition table contains no entries"@,
        PartitionError::NotFound { partition, summary } => "allocated partition "@ + decimal_spec(
            partition as nat,
        ) + " not found.\nAvailable partitions:\n"@ + summary@,
        PartitionError::NoFilesystem { summary, last_error } =>
            "no supported filesystem found in image.\nTried offset 0 and allocated partitions:\n"@
            + summary@ + "\nLast libtsk error: "@ + last_error@,
    }
}

impl PartitionError {
    pub fn message(&self) -> (r: String)
        ensures
            r@ == partition_error_message_spec(*self),
    {
        let mut out = String::new();
        match self {
            PartitionError::ZeroBased => append_str(&mut out, "partition numbers are 1-based"),
            PartitionError::NoPartitionTable(m) => {
                append_str(&mut out, "no partition table found in image: ");
                append_str(&mut out, m.as_str());
            },
            PartitionError::EmptyTable => append_str(&mut out, "partition table contains no entries"),
            PartitionError::NotFound { partition, summary } => {
                append_str(&mut out, "allocated partition ");
                push_decimal(&mut out, *partition as u64);
                append_str(&mut out, " not found.\nAvailable partitions:\n");
                append_str(&mut out, summary.as_str());
            },
            PartitionError::NoFilesystem { summary, last_error } => {
                append_str(
                    &mut out,
                    "no supported filesystem found in image.\nTried offset 0 and allocated partitions:\n",
                );
                append_str(&mut out, summary.as_str());
                append_str(&mut out, "\nLast libtsk error: ");
                append_str(&mut out, last_error.as_str());
            },
        }
        out
    }
}

/// The walked entries, or an error when there are none.
pub fn finish_partition_list(collector: PartitionCollector) -> (r: Result<
    Vec<PartitionInfo>,
    PartitionError,
>)
    ensures
        collector.partitions@.len() == 0 <==> r matches Err(PartitionError::EmptyTable),
        r matches Ok(ps) ==> ps@ == collector.partitions@,
{
    if collector.partitions.len() == 0 {
        return Err(PartitionError::EmptyTable);
    }
    Ok(collector.partitions)
}

/// The allocated entries, in order.
pub open spec fn allocated_spec(ps: Seq<PartitionInfo>) -> Seq<PartitionInfo>
    decreases ps.len(),
{
    if ps.len() == 0 {
        seq![]
    } else if ps.last().allocated {
        allocated_spec(ps.drop_last()).push(ps.last())
    } else {
        allocated_spec(ps.drop_last())
    }
}

pub fn allocated_partitions(partitions: &[PartitionInfo]) -> (r: Vec<PartitionInfo>)
    ensures
        r@.len() == allocated_spec(partitions@).len(),
        forall|i: int|
            0 <= i < r@.len() ==> {
                let a = #[trigger] r@[i];
                let b = allocated_spec(partitions@)[i];
                a.slot == b.slot && a.start_sector == b.start_sector && a.length_sectors
                    == b.length_sectors && a.byte_offset == b.byte_offset && a.description@
                    == b.description@ && a.allocated == b.allocated
            },
{
    let mut out: Vec<PartitionInfo> = Vec::new();
    let mut i: usize = 0;
    while i < partitions.len()
        invariant
            i <= partitions@.len(),
            out@.len() == allocated_spec(partitions@.take(i as int)).len(),
            forall|k: int|
                0 <= k < out@.len() ==> {
                    let a = #[trigger] out@[k];
                    let b = allocated_spec(partitions@.take(i as int))[k];
                    a.slot == b.slot && a.start_sector == b.start_sector && a.length_sectors
                        == b.length_sectors && a.byte_offset == b.byte_offset && a.description@
                        == b.description@ && a.allocated == b.allocated
                },
        decreases partitions.len() - i,
    {
        let ghost prev = allocated_spec(partitions@.take(i as int));
        assert(partitions@.take(i + 1).drop_last() =~= partitions@.take(i as int));
        let p = &partitions[i];
        if p.allocated {
            let copy = PartitionInfo {
                slot: p.slot,
                start_sector: p.start_sector,
                length_sectors: p.length_sectors,
                byte_offset: p.byte_offset,
                description: p.description.clone(),
                allocated: p.allocated,
            };
            out.push(copy);
        }
        i += 1;
    }
    assert(partitions@.take(partitions@.len() as int) =~= partitions@);
    out
}

/// `n` right-aligned in a field two characters wide.
pub open spec fn pad2_spec(digits: Seq<char>) -> Seq<char> {
    if digits.len() < 2 {
        seq![' '] + digits
    } else {
        digits
    }
}

/// One line of the partition table.
pub open spec fn partition_line(p: PartitionInfo) -> Seq<char> {
    "  "@ + pad2_spec(decimal_spec(p.slot as nat)) + ". offset="@ + decimal_spec(
        p.byte_offset as nat,
    ) + " bytes (sector "@ + decimal_spec(p.start_sector as nat) + ", len "@ + decimal_spec(
        p.length_sectors as nat,
    ) + "), "@ + (if p.allocated {
        "alloc"@
    } else {
        "meta"@
    }) + " - "@ + p.description@
}

/// The lines of the partitions joined by newlines.
pub open spec fn partition_lines(ps: Seq<PartitionInfo>) -> Seq<char>
    decreases ps.len(),
{
    if ps.len() == 0 {
        seq![]
    } else if ps.len() == 1 {
        partition_line(ps[0])
    } else {
        partition_lines(ps.drop_last()) + "\n"@ + partition_line(ps.last())
    }
}

/// The partition table as text; `  (none)` when empty.
pub open spec fn partition_table_spec(ps: Seq<PartitionInfo>) -> Seq<char> {
    if ps.len() == 0 {
        "  (none)"@
    } else {
        partition_lines(ps)
    }
}

fn push_partition_line(out: &mut String, p: &PartitionInfo)
    ensures
        final(out)@ == old(out)@ + partition_line(*p),
{
    let ghost start = out@;
    append_str(out, "  ");
    let digits = crate::text::u64_to_decimal(p.slot as u64);
    if digits.as_str().unicode_len() < 2 {
        proof {
            reveal_strlit(" ");
        }
        append_str(out, " ");
    }
    append_str(out, digits.as_str());
    assert(out@ =~= start + "  "@ + pad2_spec(decimal_spec(p.slot as nat)));
    append_str(out, ". offset=");
    push_decimal(out, p.byte_offset);
    append_str(out, " bytes (sector ");
    push_decimal(out, p.start_sector);
    append_str(out, ", len ");
    push_decimal(out, p.length_sectors);
    append_str(out, "), ");
    if p.allocated {
        append_str(out, "alloc");
    } else {
        append_str(out, "meta");
    }
    append_str(out, " - ");
    append_str(out, p.description.as_str());
    assert(out@ =~= start + partition_line(*p));
}

pub fn format_partition_table(partitions: &[PartitionInfo]) -> (r: String)
    ensures
        r@ == partition_table_spec(partitions@),
{
    let mut out = String::new();
    if partitions.len() == 0 {
        append_str(&mut out, "  (none)");
        return out;
    }
    let mut i: usize = 0;
    while i < partitions.len()
        invariant
            i <= partitions@.len(),
            out@ == partition_lines(partitions@.take(i as int)),
        decreases partitions.len() - i,
    {
        if i > 0 {
            append_str(&mut out, "\n");
        }
        push_partition_line(&mut out, &partitions[i]);
        proof {
            let t = partitions@.take(i + 1);
            assert(t.drop_last() =~= partitions@.take(i as int));
            if i == 0 {
                assert(out@ =~= partition_lines(t));
            }
        }
        i += 1;
    }
    assert(partitions@.take(partitions@.len() as int) =~= partitions@);
    out
}

/// `Partitions in <image>:` followed by the partition table.
pub fn print_partition_table(image_path: &str, partitions: &[PartitionInfo]) -> (r: String)
    ensures
        r@ == "Partitions in "@ + image_path@ + ":\n"@ + partition_table_spec(partitions@),
{
    let mut out = String::new();
    append_str(&mut out, "Partitions in ");
    append_str(&mut out, image_path);
    append_str(&mut out, ":\n");
    let table = format_partition_table(partitions);
    append_str(&mut out, table.as_str());
    out
}

/// The byte offset of an allocated partition, numbered from 1. Partition 0
/// is refused before the table is looked at; then an error listing the
/// table is passed on; then the partition is looked up among the allocated
/// entries.
pub fn resolve_partition_offset(
    listed: Result<Vec<PartitionInfo>, PartitionError>,
    partition: u32,
) -> (r: Result<u64, PartitionError>)
    ensures
        partition == 0 ==> r matches Err(PartitionError::ZeroBased),
        partition != 0 ==> (listed matches Err(le) ==> r == Err::<u64, PartitionError>(le)),
        partition != 0 ==> (listed matches Ok(ps) ==> {
            let alloc = allocated_spec(ps@);
            match r {
                Ok(offset) => exists|i: int|
                    0 <= i < alloc.len() && (#[trigger] alloc[i]).slot == partition
                        && alloc[i].byte_offset == offset && forall|j: int|
                        0 <= j < i ==> (#[trigger] alloc[j]).slot != partition,
                Err(e) => {
                    &&& forall|i: int| 0 <= i < alloc.len() ==> (#[trigger] alloc[i]).slot != partition
                    &&& e matches PartitionError::NotFound { partition: p, summary }
                    &&& p == partition
                    &&& summary@ == partition_table_spec(alloc)
                },
            }
        }),
{
    if partition == 0 {
        return Err(PartitionError::ZeroBased);
    }
    let all = match listed {
        Ok(ps) => ps,
        Err(e) => {
            return Err(e);
        },
    };
    let allocated = allocated_partitions(all.as_slice());
    let ghost alloc = allocated_spec(all@);
    if let Some(i) = first_with_slot(&allocated, partition) {
        assert(alloc[i as int].slot == partition);
        assert(forall|j: int| 0 <= j < i ==> (#[trigger] alloc[j]).slot == allocated@[j].slot);
        return Ok(allocated[i].byte_offset);
    }
    let summary = format_partition_table(allocated.as_slice());
    proof {
        assert forall|i: int| 0 <= i < alloc.len() implies #[trigger] partition_line(alloc[i])
            == partition_line(allocated@[i]) by {
            let a = allocated@[i];
            let b = alloc[i];
            assert(a.slot == b.slot && a.description@ == b.description@);
        }
        lemma_partition_table_same(allocated@, alloc);
        assert forall|i: int| 0 <= i < alloc.len() implies (#[trigger] alloc[i]).slot != partition by {
            assert(allocated@[i].slot == alloc[i].slot);
        }
    }
    Err(PartitionError::NotFound { partition, summary })
}

/// The index of the first partition with the given number.
fn first_with_slot(ps: &Vec<PartitionInfo>, slot: u32) -> (r: Option<usize>)
    ensures
        r matches Some(i) ==> i < ps@.len() && ps@[i as int].slot == slot && forall|j: int|
            0 <= j < i ==> (#[trigger] ps@[j]).slot != slot,
        r is None ==> forall|j: int| 0 <= j < ps@.len() ==> (#[trigger] ps@[j]).slot != slot,
{
    let mut i: usize = 0;
    while i < ps.len()
        invariant
            i <= ps@.len(),
            forall|j: int| 0 <= j < i ==> (#[trigger] ps@[j]).slot != slot,
        decreases ps.len() - i,
    {
        if ps[i].slot == slot {
            return Some(i);
        }
        i += 1;
    }
    None
}

/// Tables whose lines agree print alike.
proof fn lemma_partition_table_same(a: Seq<PartitionInfo>, b: Seq<PartitionInfo>)
    requires
        a.len() == b.len(),
        forall|i: int| 0 <= i < a.len() ==> #[trigger] partition_line(b[i]) == partition_line(a[i]),
    ensures
        partition_table_spec(a) == partition_table_spec(b),
    decreases a.len(),
{
    if a.len() > 1 {
        lemma_partition_table_same(a.drop_last(), b.drop_last());
        assert(partition_line(b[a.len() - 1]) == partition_line(a[a.len() - 1]));
        assert forall|i: int| 0 <= i < a.drop_last().len() implies #[trigger] partition_line(
            b.drop_last()[i],
        ) == partition_line(a.drop_last()[i]) by {
            assert(partition_line(b[i]) == partition_line(a[i]));
        }
    } else if a.len() == 1 {
        assert(partition_line(b[0]) == partition_line(a[0]));
    }
}


/// The offsets tried when looking for a filesystem: the start of the image,
/// then each allocated partition in table order.
pub fn fs_offset_candidates(partitions: &[PartitionInfo]) -> (r: Vec<u64>)
    ensures
        r@ == seq![0u64] + Seq::new(
            allocated_spec(partitions@).len(),
            |i: int| allocated_spec(partitions@)[i].byte_offset,
        ),
{
    let allocated = allocated_partitions(partitions);
    let ghost alloc = allocated_spec(partitions@);
    let mut out: Vec<u64> = Vec::new();
    out.push(0);
    let mut i: usize = 0;
    while i < allocated.len()
        invariant
            i <= allocated@.len() == alloc.len(),
            out@ == seq![0u64] + Seq::new(i as nat, |k: int| alloc[k].byte_offset),
            forall|k: int|
                0 <= k < allocated@.len() ==> (#[trigger] allocated@[k]).byte_offset
                    == alloc[k].byte_offset,
        decreases allocated.len() - i,
    {
        out.push(allocated[i].byte_offset);
        assert(out@ =~= seq![0u64] + Seq::new((i + 1) as nat, |k: int| alloc[k].byte_offset));
        i += 1;
    }
    out
}

/// The error when no candidate offset holds a filesystem: the allocated
/// partitions tried and libtsk's last message.
pub fn no_filesystem_error(partitions: &[PartitionInfo], last_error: &str) -> (r: PartitionError)
    ensures
        r matches PartitionError::NoFilesystem { summary, last_error: e } && summary@
            == partition_table_spec(allocated_spec(partitions@)) && e@ == last_error@,
{
    let allocated = allocated_partitions(partitions);
    let summary = format_partition_table(allocated.as_slice());
    proof {
        let alloc = allocated_spec(partitions@);
        assert forall|i: int| 0 <= i < alloc.len() implies #[trigger] partition_line(alloc[i])
            == partition_line(allocated@[i]) by {
            let a = allocated@[i];
            assert(a.slot == alloc[i].slot && a.description@ == alloc[i].description@);
        }
        lemma_partition_table_same(allocated@, alloc);
    }
    PartitionError::NoFilesystem { summary, last_error: last_error.to_string() }
}

// ---------------------------------------------------------------------------
// Images
// ---------------------------------------------------------------------------

/// The highest EWF segment number looked for.
pub const LAST_EWF_SEGMENT: u32 = 999;

/// `n` in at least two digits, zero-padded.
pub open spec fn zero_pad2(digits: Seq<char>) -> Seq<char> {
    if digits.len() < 2 {
        seq!['0'] + digits
    } else {
        digits
    }
}

/// The directory an image lies in (`.` when it has no parent).
pub open spec fn image_dir(path: Seq<char>) -> Seq<char> {
    match std_path_parent(path) {
        Some(p) => p,
        None => "."@,
    }
}

/// The file name of EWF segment `index` for an image stem (`image` when the
/// image has none): `<stem>.Enn`, the number at least two digits wide.
pub open spec fn segment_file_name_spec(stem: Option<Seq<char>>, index: u32) -> Seq<char> {
    (match stem {
        Some(s) => s,
        None => "image"@,
    }) + ".E"@ + zero_pad2(decimal_spec(index as nat))
}

/// The path of EWF segment `index` beside a first segment.
pub open spec fn segment_path_spec(path: Seq<char>, index: u32) -> Seq<char> {
    std_path_join(image_dir(path), segment_file_name_spec(std_path_file_stem(path), index))
}

pub fn segment_file_name(stem: Option<&str>, index: u32) -> (r: String)
    ensures
        r@ == segment_file_name_spec(opt_str_seq(stem), index),
{
    let mut name = String::new();
    match stem {
        Some(s) => append_str(&mut name, s),
        None => append_str(&mut name, "image"),
    }
    let ghost base = name@;
    append_str(&mut name, ".E");
    let digits = crate::text::u64_to_decimal(index as u64);
    if digits.as_str().unicode_len() < 2 {
        proof {
            reveal_strlit("0");
        }
        append_str(&mut name, "0");
    }
    append_str(&mut name, digits.as_str());
    assert(name@ =~= base + ".E"@ + zero_pad2(decimal_spec(index as nat)));
    name
}

pub fn ewf_segment_path(image_path: &str, index: u32) -> (r: String)
    ensures
        r@ == segment_path_spec(image_path@, index),
{
    let dir = match path_parent(image_path) {
        Some(p) => p,
        None => {
            let mut d = String::new();
            append_str(&mut d, ".");
            d
        },
    };
    let stem = path_file_stem(image_path);
    let name = match stem {
        Some(s) => segment_file_name(Some(s.as_str()), index),
        None => segment_file_name(None, index),
    };
    path_join(dir.as_str(), name.as_str())
}

/// An extension marks the first segment of an EWF set (`e01`, in any ASCII case).
pub open spec fn is_first_segment_extension_spec(ext: Option<Seq<char>>) -> bool {
    ext matches Some(e) && ascii_lower_spec(e) == "e01"@
}

/// The image is the first segment of an EWF set.
pub open spec fn is_ewf_first_segment(path: Seq<char>) -> bool {
    is_first_segment_extension_spec(std_path_extension(path))
}

pub fn is_first_segment_extension(ext: Option<&str>) -> (r: bool)
    ensures
        r == is_first_segment_extension_spec(opt_str_seq(ext)),
{
    match ext {
        Some(raw) => {
            let lower = to_ascii_lowercase(raw);
            str_eq(lower.as_str(), "e01")
        },
        None => false,
    }
}

/// How many of the flags, from the first, are set.
pub open spec fn leading_true(flags: Seq<bool>) -> nat
    decreases flags.len(),
{
    if flags.len() == 0 || !flags[0] {
        0
    } else {
        1 + leading_true(flags.drop_first())
    }
}

/// The paths of an image's segments: just the image, unless it is the first
/// EWF segment; then also segments 2, 3, ... beside it for as long as they
/// exist (`segment_exists[k]` tells whether segment `k + 2` exists), up to
/// segment 999.
pub open spec fn image_paths_spec(path: Seq<char>, segment_exists: Seq<bool>) -> Seq<Seq<char>> {
    if !is_ewf_first_segment(path) {
        seq![path]
    } else {
        let n = if leading_true(segment_exists) < 998 {
            leading_true(segment_exists)
        } else {
            998
        };
        seq![path] + Seq::new(n, |k: int| segment_path_spec(path, (k + 2) as u32))
    }
}

proof fn lemma_leading_true_step(flags: Seq<bool>, k: int)
    requires
        0 <= k <= flags.len(),
        forall|j: int| 0 <= j < k ==> flags[j],
    ensures
        k <= leading_true(flags),
        (k == flags.len() || !flags[k]) ==> leading_true(flags) == k,
    decreases k,
{
    if k > 0 {
        assert forall|j: int| 0 <= j < k - 1 implies flags.drop_first()[j] by {
            assert(flags[j + 1]);
        }
        lemma_leading_true_step(flags.drop_first(), k - 1);
    }
}

pub fn collect_image_paths(image_path: &str, segment_exists: &[bool]) -> (r: Vec<String>)
    ensures
        Seq::new(r@.len(), |i: int| r@[i]@) == image_paths_spec(image_path@, segment_exists@),
{
    let mut out: Vec<String> = Vec::new();
    out.push(image_path.to_string());
    let ext = path_extension(image_path);
    let is_first = match ext {
        Some(e) => is_first_segment_extension(Some(e.as_str())),
        None => is_first_segment_extension(None),
    };
    if !is_first {
        assert(Seq::new(out@.len(), |i: int| out@[i]@) =~= seq![image_path@]);
        return out;
    }
    let ghost flags = segment_exists@;
    let mut index: u32 = 2;
    while index <= LAST_EWF_SEGMENT && ((index - 2) as usize) < segment_exists.len()
        && segment_exists[(index - 2) as usize]
        invariant
            2 <= index <= 1000,
            flags == segment_exists@,
            index - 2 <= flags.len(),
            forall|j: int| 0 <= j < index - 2 ==> flags[j],
            out@.len() == index - 1,
            Seq::new(out@.len(), |i: int| out@[i]@) == seq![image_path@] + Seq::new(
                (index - 2) as nat,
                |k: int| segment_path_spec(image_path@, (k + 2) as u32),
            ),
        decreases 1000 - index,
    {
        let ghost k: int = index - 2;
        let ghost before = out@;
        let segment = ewf_segment_path(image_path, index);
        let ghost seg_view = segment@;
        out.push(segment);
        proof {
            assert((k + 2) as u32 == index);
            let lhs = Seq::new(out@.len(), |i: int| out@[i]@);
            let old_lhs = Seq::new(before.len(), |i: int| before[i]@);
            let rhs = seq![image_path@] + Seq::new(
                (index - 1) as nat,
                |j: int| segment_path_spec(image_path@, (j + 2) as u32),
            );
            let old_rhs = seq![image_path@] + Seq::new(
                (index - 2) as nat,
                |j: int| segment_path_spec(image_path@, (j + 2) as u32),
            );
            assert(old_lhs == old_rhs);
            assert forall|i: int| 0 <= i < lhs.len() implies lhs[i] == rhs[i] by {
                if i < before.len() {
                    assert(lhs[i] == old_lhs[i]);
                    assert(old_rhs[i] == rhs[i]);
                } else {
                    assert(lhs[i] == seg_view);
                }
            }
            assert(lhs =~= rhs);
        }
        index += 1;
    }
    proof {
        lemma_leading_true_step(flags, index - 2);
    }
    out
}

// ---------------------------------------------------------------------------
// Image scans
// ---------------------------------------------------------------------------

/// Why an image scan could not be set up.
#[derive(Debug)]
pub enum TskSetupError {
    ImageMissing(String),
    PartitionAndOffset,
}

pub open spec fn tsk_setup_message_spec(e: TskSetupError) -> Seq<char> {
    match e {
        TskSetupError::ImageMissing(p) => "disk image does not exist: "@ + p@,
        TskSetupError::PartitionAndOffset => "use either --partition or --offset, not both"@,
    }
}

impl TskSetupError {
    pub fn message(&self) -> (r: String)
        ensures
            r@ == tsk_setup_message_spec(*self),
    {
        let mut out = String::new();
        match self {
            TskSetupError::ImageMissing(p) => {
                append_str(&mut out, "disk image does not exist: ");
                append_str(&mut out, p.as_str());
            },
            TskSetupError::PartitionAndOffset => {
                append_str(&mut out, "use either --partition or --offset, not both");
            },
        }
        out
    }
}

/// Where in an image the filesystem is looked for.
#[derive(Debug, Clone, Copy, PartialEq, Eq, Structural)]
pub enum OffsetChoice {
    /// At the byte offset given.
    Fixed(u64),
    /// At the allocated partition with this number.
    Partition(u32),
    /// At the start of the image, else the first allocated partition holding one.
    Detect,
}

/// An offline scan of a disk image.
#[derive(Debug)]
pub struct TskScanner {
    pub image_path: String,
    pub partition: Option<u32>,
    pub offset: Option<u64>,
    pub options: ScanOptions,
}

impl TskScanner {
    /// Sets up an image scan; the image must exist (`image_exists`), and a
    /// partition number and an offset may not both be given.
    pub fn new(
        image_path: String,
        image_exists: bool,
        partition: Option<u32>,
        offset: Option<u64>,
        options: ScanOptions,
    ) -> (r: Result<TskScanner, TskSetupError>)
        ensures
            !image_exists ==> (r matches Err(TskSetupError::ImageMissing(p)) && p@ == image_path@),
            image_exists && partition is Some && offset is Some ==> r matches Err(
                TskSetupError::PartitionAndOffset,
            ),
            image_exists && !(partition is Some && offset is Some) ==> (r matches Ok(s)
                && s.image_path@ == image_path@ && s.partition == partition && s.offset == offset
                && s.options == options),
    {
        if !image_exists {
            return Err(TskSetupError::ImageMissing(image_path));
        }
        if partition.is_some() && offset.is_some() {
            return Err(TskSetupError::PartitionAndOffset);
        }
        Ok(TskScanner { image_path, partition, offset, options })
    }

    /// A given offset wins, then a partition number; otherwise detection.
    pub fn offset_choice(&self) -> (r: OffsetChoice)
        ensures
            r == match self.offset {
                Some(o) => OffsetChoice::Fixed(o),
                None => match self.partition {
                    Some(p) => OffsetChoice::Partition(p),
                    None => OffsetChoice::Detect,
                },
            },
    {
        if let Some(offset) = self.offset {
            return OffsetChoice::Fixed(offset);
        }
        if let Some(partition) = self.partition {
            return OffsetChoice::Partition(partition);
        }
        OffsetChoice::Detect
    }

    /// The directory-walk flags: unallocated entries too when deleted entries
    /// are asked for.
    pub fn dir_walk_flags(&self) -> (r: u32)
        ensures
            r == if self.options.include_deleted {
                TSK_FS_DIR_WALK_FLAG_UNALLOC
            } else {
                0u32
            },
    {
        if self.options.include_deleted {
            TSK_FS_DIR_WALK_FLAG_UNALLOC
        } else {
            0
        }
    }
}

/// What libtsk reports for one entry of a directory walk.
#[derive(Debug)]
pub struct TskWalkEntry {
    pub meta_type: u32,
    pub flags: u8,
    pub path: String,
    pub addr: u64,
    pub size: u64,
    pub mode: u16,
    pub uid: u32,
    pub gid: u32,
    /// The general (on NTFS, `$STANDARD_INFORMATION`) times.
    pub times: TskMetaTimes,
    /// The NTFS `$FILE_NAME` times.
    pub name_times: TskMetaTimes,
}

/// An entry is unallocated or orphaned.
pub open spec fn tsk_deleted_spec(flags: u8) -> bool {
    flags & TSK_FS_META_FLAG_UNALLOC != 0 || flags & TSK_FS_META_FLAG_ORPHAN != 0
}

/// The record a walked entry gives: none for what is neither a regular file
/// nor a directory, or for a path the options leave out (its depth counted
/// from the filesystem root `/`, where an image walk starts).
pub open spec fn tsk_entry_record_matches(
    r: Option<RecordView>,
    fs_type: u32,
    options: ScanOptions,
    e: TskWalkEntry,
) -> bool {
    if (e.meta_type != TSK_FS_META_TYPE_REG && e.meta_type != TSK_FS_META_TYPE_DIR)
        || !path_selected_spec(e.path@, "/"@, options) {
        r is None
    } else {
        r matches Some(rec) && {
            let macb = tsk_macb_spec(fs_type, e.times);
            &&& rec.path == e.path@
            &&& rec.inode == Some(e.addr)
            &&& opt_ts_parts(rec.mtime) == macb.0
            &&& opt_ts_parts(rec.atime) == macb.1
            &&& opt_ts_parts(rec.ctime) == macb.2
            &&& opt_ts_parts(rec.btime) == macb.3
            &&& rec.size == e.size
            &&& rec.mode == Some(e.mode as u32)
            &&& rec.uid == Some(e.uid)
            &&& rec.gid == Some(e.gid)
            &&& rec.md5 is None && rec.sha256 is None
            &&& rec.deleted == tsk_deleted_spec(e.flags)
            &&& rec.is_dir == (e.meta_type == TSK_FS_META_TYPE_DIR)
            &&& rec.anomalies == match ntfs_mismatch_spec(fs_type, Some((e.times, e.name_times))) {
                Some(a) => seq![a],
                None => Seq::<AnomalyView>::empty(),
            }
        }
    }
}

pub open spec fn opt_record_view(r: Option<MacbRecord>) -> Option<RecordView> {
    match r {
        Some(v) => Some(v@),
        None => None,
    }
}

/// Turns one walked entry into a record, when it is kept.
pub fn tsk_entry_record(fs_type: u32, options: &ScanOptions, entry: TskWalkEntry) -> (r: Option<
    MacbRecord,
>)
    ensures
        tsk_entry_record_matches(opt_record_view(r), fs_type, *options, entry),
{
    if entry.meta_type != TSK_FS_META_TYPE_REG && entry.meta_type != TSK_FS_META_TYPE_DIR {
        return None;
    }
    if !path_selected(entry.path.as_str(), "/", options) {
        return None;
    }
    let is_dir = entry.meta_type == TSK_FS_META_TYPE_DIR;
    let deleted = entry.flags & TSK_FS_META_FLAG_UNALLOC != 0 || entry.flags
        & TSK_FS_META_FLAG_ORPHAN != 0;
    let (mtime, atime, ctime, btime) = map_ntfs_times(fs_type, Some(entry.times), &entry.times);
    let mut anomalies: Vec<Anomaly> = Vec::new();
    if let Some(anomaly) = detect_ntfs_attr_mismatch(fs_type, Some((entry.times, entry.name_times))) {
        anomalies.push(anomaly);
    }
    let record = MacbRecord {
        path: entry.path,
        inode: Some(entry.addr),
        mtime,
        atime,
        ctime,
        btime,
        size: entry.size,
        mode: Some(entry.mode as u32),
        uid: Some(entry.uid),
        gid: Some(entry.gid),
        md5: None,
        sha256: None,
        deleted,
        is_dir,
        anomalies,
    };
    assert(record@.anomalies =~= match ntfs_mismatch_spec(fs_type, Some((entry.times, entry.name_times))) {
        Some(a) => seq![a],
        None => Seq::<AnomalyView>::empty(),
    });
    Some(record)
}

/// The inode of an image file to hash: regular files with content and a
/// known inode only.
pub fn tsk_hash_target(record: &MacbRecord) -> (r: Option<u64>)
    ensures
        r == if record.is_dir || record.size == 0 {
            None
        } else {
            record.inode
        },
{
    if record.is_dir || record.size == 0 {
        return None;
    }
    record.inode
}

/// Progress through a file read out of an image in chunks.
#[derive(Debug, Clone, Copy)]
pub struct ImageRead {
    pub offset: i64,
    pub remaining: u64,
}

/// What to do after one read.
#[derive(Debug, Clone, Copy, PartialEq, Eq, Structural)]
pub enum ReadStep {
    /// Read the next chunk.
    Continue,
    /// The file is read (or libtsk reported its end).
    Finished,
    /// libtsk reported a failure.
    Failed,
}

pub open spec fn chunk_len_spec(remaining: u64) -> u64 {
    if remaining < IMAGE_READ_CHUNK {
        remaining
    } else {
        IMAGE_READ_CHUNK
    }
}

impl ImageRead {
    pub fn start(size: u64) -> (r: ImageRead)
        ensures
            r.offset == 0 && r.remaining == size,
    {
        ImageRead { offset: 0, remaining: size }
    }

    /// The length of the next read, none when nothing remains.
    pub fn next_len(&self) -> (r: Option<u64>)
        ensures
            self.remaining == 0 ==> r is None,
            self.remaining > 0 ==> r == Some(chunk_len_spec(self.remaining)),
    {
        if self.remaining == 0 {
            None
        } else if self.remaining < IMAGE_READ_CHUNK {
            Some(self.remaining)
        } else {
            Some(IMAGE_READ_CHUNK)
        }
    }

    /// Takes in the result of a read of `next_len` bytes (libtsk never
    /// reads more than was asked, so no more than remains).
    pub fn advance(&mut self, read: i64) -> (r: ReadStep)
        requires
            read <= old(self).remaining,
            old(self).offset + read <= i64::MAX,
        ensures
            read < 0 ==> r == ReadStep::Failed && *final(self) == *old(self),
            read == 0 ==> r == ReadStep::Finished && *final(self) == *old(self),
            read > 0 ==> final(self).offset == old(self).offset + read && final(self).remaining
                == old(self).remaining - read && r == if final(self).remaining == 0 {
                ReadStep::Finished
            } else {
                ReadStep::Continue
            },
    {
        if read < 0 {
            return ReadStep::Failed;
        }
        if read == 0 {
            return ReadStep::Finished;
        }
        self.offset = self.offset + read;
        self.remaining = self.remaining - (read as u64);
        if self.remaining == 0 {
            ReadStep::Finished
        } else {
            ReadStep::Continue
        }
    }
}

} // verus!
