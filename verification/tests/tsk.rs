use macb_timeline::tsk::{
    collect_image_paths, detect_image_type, detect_ntfs_attr_mismatch, ewf_segment_path,
    format_partition_table, fs_offset_candidates, map_tsk_timestamps, no_filesystem_error,
    print_partition_table, resolve_partition_offset, timestamps_differ, tsk_entry_record,
    tsk_hash_target, ImageRead, OffsetChoice, PartitionCollector, PartitionError, PartitionInfo,
    ReadStep, TskMetaTimes, TskScanner, TskSetupError, TskWalkEntry, TSK_FS_META_TYPE_DIR,
    TSK_FS_META_TYPE_REG, TSK_FS_TYPE_EXT2, TSK_FS_TYPE_FAT32, TSK_FS_TYPE_NTFS,
    TSK_IMG_TYPE_AFF_AFD, TSK_IMG_TYPE_AFF_AFF, TSK_IMG_TYPE_DETECT, TSK_IMG_TYPE_EWF,
    TSK_IMG_TYPE_RAW,
};
use macb_timeline::{AnomalyRule, MacbRecord, MacbType, ScanOptions, Severity};

fn times() -> TskMetaTimes {
    TskMetaTimes {
        crtime: 1_700_000_000,
        atime: 1_700_000_100,
        mtime: 1_700_000_200,
        ctime: 1_700_000_300,
    }
}

fn part(slot: u32, start: u64, allocated: bool, desc: &str) -> PartitionInfo {
    PartitionInfo {
        slot,
        start_sector: start,
        length_sectors: 100,
        byte_offset: start * 512,
        description: desc.to_string(),
        allocated,
    }
}

fn listed(parts: Vec<PartitionInfo>) -> Result<Vec<PartitionInfo>, PartitionError> {
    Ok(parts)
}

#[test]
fn ignores_small_timestamp_differences() {
    assert!(!timestamps_differ(1_700_000_000, 1_700_000_000));
    assert!(!timestamps_differ(1_700_000_000, 1_700_000_001));
}

#[test]
fn detects_large_timestamp_differences() {
    assert!(timestamps_differ(1_700_000_000, 1_700_010_000));
}

#[test]
fn formats_empty_partition_table() {
    assert_eq!(format_partition_table(&[]), "  (none)");
}

#[test]
fn detects_ewf_extension() {
    assert_eq!(detect_image_type("/evidence/disk.E01"), TSK_IMG_TYPE_EWF);
}

#[test]
fn detects_aff_extension() {
    assert_eq!(detect_image_type("/evidence/image.aff"), TSK_IMG_TYPE_AFF_AFF);
}

#[test]
fn maps_fat_without_ctime() {
    let (_, _, ctime, btime) = map_tsk_timestamps(TSK_FS_TYPE_FAT32, &times());
    assert!(ctime.is_none());
    assert!(btime.is_some());
}

#[test]
fn maps_ntfs_with_all_timestamps() {
    let (mtime, atime, ctime, btime) = map_tsk_timestamps(TSK_FS_TYPE_NTFS, &times());
    assert!(mtime.is_some());
    assert!(atime.is_some());
    assert!(ctime.is_some());
    assert!(btime.is_some());
}

#[test]
fn collects_ewf_segments_in_order() {
    let segments = collect_image_paths("/case/evidence.E01", &[true, false, true]);
    assert_eq!(segments.len(), 2);
    assert_eq!(segments[0], "/case/evidence.E01");
    assert_eq!(segments[1], "/case/evidence.E02");
}

#[test]
fn leaves_non_ewf_images_unsegmented() {
    let path = "/tmp/disk.dd";
    assert_eq!(collect_image_paths(path, &[true, true]), vec![path.to_string()]);
}

#[test]
fn mod_rejects_partition_and_offset_together() {
    let err = TskScanner::new(
        "/tmp/disk.img".to_string(),
        true,
        Some(1),
        Some(0),
        ScanOptions::default(),
    )
    .unwrap_err();
    assert!(err.message().contains("partition"));
}

#[test]
fn other_image_extensions() {
    assert_eq!(detect_image_type("/x/disk.DD"), TSK_IMG_TYPE_RAW);
    assert_eq!(detect_image_type("/x/disk.img"), TSK_IMG_TYPE_RAW);
    assert_eq!(detect_image_type("/x/disk.Ex01"), TSK_IMG_TYPE_EWF);
    assert_eq!(detect_image_type("/x/disk.afd"), TSK_IMG_TYPE_AFF_AFD);
    assert_eq!(detect_image_type("/x/disk.vmdk"), TSK_IMG_TYPE_DETECT);
    assert_eq!(detect_image_type("/x/disk"), TSK_IMG_TYPE_DETECT);
}

#[test]
fn segment_paths_are_numbered_beside_the_first() {
    assert_eq!(ewf_segment_path("evidence.E01", 2), "evidence.E02");
    assert_eq!(ewf_segment_path("/a/b.e01", 10), "/a/b.E10");
    assert_eq!(ewf_segment_path("/a/b.E01", 100), "/a/b.E100");
    let all = collect_image_paths("/a/b.e01", &[true, true, true]);
    assert_eq!(all, vec!["/a/b.e01", "/a/b.E02", "/a/b.E03", "/a/b.E04"]);
}

#[test]
fn missing_image_is_refused_first() {
    let err = TskScanner::new("/no/img".to_string(), false, Some(1), Some(0), ScanOptions::default())
        .unwrap_err();
    assert!(matches!(err, TskSetupError::ImageMissing(_)));
    assert_eq!(err.message(), "disk image does not exist: /no/img");
}

#[test]
fn offset_choice_prefers_offset_then_partition() {
    let s = TskScanner::new("/i".to_string(), true, None, Some(4096), ScanOptions::default()).unwrap();
    assert_eq!(s.offset_choice(), OffsetChoice::Fixed(4096));
    let s = TskScanner::new("/i".to_string(), true, Some(2), None, ScanOptions::default()).unwrap();
    assert_eq!(s.offset_choice(), OffsetChoice::Partition(2));
    let s = TskScanner::new("/i".to_string(), true, None, None, ScanOptions::default()).unwrap();
    assert_eq!(s.offset_choice(), OffsetChoice::Detect);
    assert_eq!(s.dir_walk_flags(), 0);
}

#[test]
fn ntfs_mismatch_lists_differing_times() {
    let si = times();
    let mut fname = times();
    fname.mtime += 100;
    fname.ctime += 2;
    let anomaly = detect_ntfs_attr_mismatch(TSK_FS_TYPE_NTFS, Some((si, fname))).unwrap();
    assert_eq!(anomaly.rule, AnomalyRule::NtfsSiFnMismatch);
    assert_eq!(anomaly.severity, Severity::High);
    assert_eq!(
        anomaly.description,
        "NTFS $STANDARD_INFORMATION and $FILE_NAME timestamps differ (mtime, ctime)"
    );
    assert_eq!(
        anomaly.timestamps_involved,
        vec![MacbType::Modified, MacbType::Born, MacbType::Accessed, MacbType::Changed]
    );
    assert!(detect_ntfs_attr_mismatch(TSK_FS_TYPE_EXT2, Some((si, fname))).is_none());
    assert!(detect_ntfs_attr_mismatch(TSK_FS_TYPE_NTFS, None).is_none());
    assert!(detect_ntfs_attr_mismatch(TSK_FS_TYPE_NTFS, Some((si, si))).is_none());
}

#[test]
fn unset_times_never_differ() {
    assert!(!timestamps_differ(0, 1_700_000_000));
    assert!(!timestamps_differ(1_700_000_000, -5));
    assert!(timestamps_differ(1_700_000_002, 1_700_000_000));
}

#[test]
fn unset_tsk_times_map_to_none() {
    let zero = TskMetaTimes { crtime: 0, atime: -1, mtime: 5, ctime: 0 };
    let (m, a, c, b) = map_tsk_timestamps(TSK_FS_TYPE_EXT2, &zero);
    assert_eq!(m.unwrap().secs(), 5);
    assert!(a.is_none() && c.is_none() && b.is_none());
}

#[test]
fn partitions_are_numbered_among_allocated_ones() {
    let mut collector = PartitionCollector::new(512);
    collector.collect(0, 63, 0x02, Some(" Primary Table (#0) "));
    collector.collect(63, 1000, 0x01, Some("Linux (0x83)"));
    collector.collect(1063, 10, 0x04, None);
    collector.collect(2048, 500, 0x01, Some("NTFS"));
    let parts = collector.partitions;
    assert_eq!(parts.len(), 4);
    assert_eq!(parts[0].slot, 0);
    assert_eq!(parts[0].description, "Primary Table (#0)");
    assert_eq!(parts[1].slot, 1);
    assert_eq!(parts[1].byte_offset, 63 * 512);
    assert_eq!(parts[2].description, "");
    assert_eq!(parts[3].slot, 2);
}

#[test]
fn resolves_partition_offsets() {
    let parts = vec![part(0, 0, false, "meta"), part(1, 63, true, "Linux"), part(2, 2048, true, "NTFS")];
    assert_eq!(resolve_partition_offset(listed(parts), 2).unwrap(), 2048 * 512);
    let zero = resolve_partition_offset(Err(PartitionError::EmptyTable), 0).unwrap_err();
    assert_eq!(zero.message(), "partition numbers are 1-based");
    let passed = resolve_partition_offset(Err(PartitionError::EmptyTable), 1).unwrap_err();
    assert_eq!(passed.message(), "partition table contains no entries");
    let parts = vec![part(0, 0, false, "meta"), part(1, 63, true, "Linux")];
    let missing = resolve_partition_offset(listed(parts), 3).unwrap_err();
    assert_eq!(
        missing.message(),
        "allocated partition 3 not found.\nAvailable partitions:\n   1. offset=32256 bytes (sector 63, len 100), alloc - Linux"
    );
}

#[test]
fn partition_listing_text() {
    let parts = vec![part(0, 0, false, "Unallocated"), part(12, 2048, true, "FAT32")];
    assert_eq!(
        print_partition_table("/e/disk.raw", &parts),
        "Partitions in /e/disk.raw:\n   0. offset=0 bytes (sector 0, len 100), meta - Unallocated\n  12. offset=1048576 bytes (sector 2048, len 100), alloc - FAT32"
    );
}

#[test]
fn filesystem_search_tries_image_start_then_allocated_partitions() {
    let parts = vec![part(0, 0, false, "meta"), part(1, 63, true, "a"), part(2, 100, true, "b")];
    assert_eq!(fs_offset_candidates(&parts), vec![0, 63 * 512, 100 * 512]);
    let err = no_filesystem_error(&parts[..1], "boom");
    assert_eq!(
        err.message(),
        "no supported filesystem found in image.\nTried offset 0 and allocated partitions:\n  (none)\nLast libtsk error: boom"
    );
}

fn entry(meta_type: u32, flags: u8, path: &str) -> TskWalkEntry {
    TskWalkEntry {
        meta_type,
        flags,
        path: path.to_string(),
        addr: 77,
        size: 12,
        mode: 0o644,
        uid: 1,
        gid: 2,
        times: times(),
        name_times: times(),
    }
}

#[test]
fn walk_entries_become_records() {
    let options = ScanOptions::default();
    let rec: MacbRecord = tsk_entry_record(TSK_FS_TYPE_FAT32, &options, entry(TSK_FS_META_TYPE_REG, 0x20, "/DOC.TXT")).unwrap();
    assert!(rec.deleted);
    assert!(!rec.is_dir);
    assert!(rec.ctime.is_none());
    assert_eq!(rec.inode, Some(77));
    assert!(rec.anomalies.is_empty());
    assert!(tsk_entry_record(TSK_FS_TYPE_FAT32, &options, entry(5, 0, "/link")).is_none());
    let dir = tsk_entry_record(TSK_FS_TYPE_NTFS, &options, entry(TSK_FS_META_TYPE_DIR, 0x01, "/Windows")).unwrap();
    assert!(dir.is_dir && !dir.deleted);
    let mut odd = entry(TSK_FS_META_TYPE_REG, 0, "/x");
    odd.name_times.crtime += 3600;
    let flagged = tsk_entry_record(TSK_FS_TYPE_NTFS, &options, odd).unwrap();
    assert_eq!(flagged.anomalies.len(), 1);
    let shallow = ScanOptions::build(Some(0), true, &[], &[], true, false, None).unwrap();
    assert!(tsk_entry_record(TSK_FS_TYPE_NTFS, &shallow, entry(TSK_FS_META_TYPE_REG, 0, "/a/b")).is_none());
}

#[test]
fn image_files_are_read_in_chunks() {
    let mut read = ImageRead::start(70_000);
    assert_eq!(read.next_len(), Some(65_536));
    assert_eq!(read.advance(65_536), ReadStep::Continue);
    assert_eq!(read.next_len(), Some(4_464));
    assert_eq!(read.advance(-1), ReadStep::Failed);
    assert_eq!(read.advance(4_464), ReadStep::Finished);
    assert_eq!(read.offset, 70_000);
    assert_eq!(read.next_len(), None);
    let mut early = ImageRead::start(10);
    assert_eq!(early.advance(0), ReadStep::Finished);
}

#[test]
fn only_regular_files_with_content_are_hashed_from_images() {
    let rec = tsk_entry_record(TSK_FS_TYPE_EXT2, &ScanOptions::default(), entry(TSK_FS_META_TYPE_REG, 0, "/f")).unwrap();
    assert_eq!(tsk_hash_target(&rec), Some(77));
    let mut empty = rec;
    empty.size = 0;
    assert_eq!(tsk_hash_target(&empty), None);
}

#[test]
fn partition_listing_needs_an_entry() {
    let empty = macb_timeline::tsk::finish_partition_list(PartitionCollector::new(512)).unwrap_err();
    assert_eq!(empty.message(), "partition table contains no entries");
    let mut collector = PartitionCollector::new(4096);
    collector.collect(1, 2, 0x01, Some("x"));
    let parts = macb_timeline::tsk::finish_partition_list(collector).unwrap();
    assert_eq!(parts[0].byte_offset, 4096);
    let no_table = PartitionError::NoPartitionTable("bad magic".to_string());
    assert_eq!(no_table.message(), "no partition table found in image: bad magic");
}

#[test]
fn extension_rules() {
    assert_eq!(macb_timeline::tsk::image_type_for_extension(Some("E02")), TSK_IMG_TYPE_EWF);
    assert_eq!(macb_timeline::tsk::image_type_for_extension(Some("Raw")), TSK_IMG_TYPE_RAW);
    assert_eq!(macb_timeline::tsk::image_type_for_extension(None), TSK_IMG_TYPE_DETECT);
    assert!(macb_timeline::tsk::is_first_segment_extension(Some("E01")));
    assert!(!macb_timeline::tsk::is_first_segment_extension(Some("E02")));
    assert!(!macb_timeline::tsk::is_first_segment_extension(None));
    assert_eq!(macb_timeline::tsk::segment_file_name(Some("disk"), 7), "disk.E07");
    assert_eq!(macb_timeline::tsk::segment_file_name(None, 12), "image.E12");
}
