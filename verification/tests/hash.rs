use macb_timeline::hash::{
    apply_digest, digest_hex, hash_pool_threads, hex_lower, needs_hash,
};
use macb_timeline::{HashAlgorithm, MacbRecord};

fn file_record() -> MacbRecord {
    MacbRecord {
        path: "/f".to_string(),
        inode: Some(1),
        mtime: None,
        atime: None,
        ctime: None,
        btime: None,
        size: 3,
        mode: Some(0o100644),
        uid: None,
        gid: None,
        md5: None,
        sha256: None,
        deleted: false,
        is_dir: false,
        anomalies: Vec::new(),
    }
}

#[test]
fn parses_algorithm_names_case_insensitively() {
    assert_eq!(HashAlgorithm::parse("md5").unwrap(), HashAlgorithm::Md5);
    assert_eq!(HashAlgorithm::parse("MD5").unwrap(), HashAlgorithm::Md5);
    assert_eq!(HashAlgorithm::parse("sha256").unwrap(), HashAlgorithm::Sha256);
    assert_eq!(HashAlgorithm::parse("SHA-256").unwrap(), HashAlgorithm::Sha256);
    let err = HashAlgorithm::parse("Sha1").unwrap_err();
    assert_eq!(err.message(), "unsupported hash algorithm 'Sha1' (use md5 or sha256)");
}

#[test]
fn digests_are_lower_hex() {
    assert_eq!(digest_hex(HashAlgorithm::Md5, b"abc"), "900150983cd24fb0d6963f7d28e17f72");
    assert_eq!(
        digest_hex(HashAlgorithm::Sha256, b"abc"),
        "ba7816bf8f01cfea414140de5dae2223b00361a396177a9cb410ff61f20015ad"
    );
    assert_eq!(digest_hex(HashAlgorithm::Md5, b""), "d41d8cd98f00b204e9800998ecf8427e");
    assert_eq!(hex_lower(&[10, 20, 30, 255, 0]), "0a141eff00");
}

#[test]
fn only_files_without_a_digest_are_hashed() {
    let record = file_record();
    assert!(needs_hash(&record, HashAlgorithm::Md5));
    let mut dir = file_record();
    dir.is_dir = true;
    assert!(!needs_hash(&dir, HashAlgorithm::Md5));
    let mut gone = file_record();
    gone.deleted = true;
    assert!(!needs_hash(&gone, HashAlgorithm::Sha256));
    let mut done = file_record();
    done.md5 = Some("x".to_string());
    assert!(!needs_hash(&done, HashAlgorithm::Md5));
    assert!(needs_hash(&done, HashAlgorithm::Sha256));
}

#[test]
fn links_special_files_and_unknown_modes_are_not_hashed() {
    let mut link = file_record();
    link.mode = Some(0o120777);
    assert!(!needs_hash(&link, HashAlgorithm::Md5));
    let mut fifo = file_record();
    fifo.mode = Some(0o010644);
    assert!(!needs_hash(&fifo, HashAlgorithm::Sha256));
    let mut unknown = file_record();
    unknown.mode = None;
    assert!(!needs_hash(&unknown, HashAlgorithm::Md5));
}

#[test]
fn digests_land_in_their_field() {
    let mut record = file_record();
    apply_digest(&mut record, HashAlgorithm::Sha256, "beef".to_string());
    assert_eq!(record.sha256.as_deref(), Some("beef"));
    assert!(record.md5.is_none());
    apply_digest(&mut record, HashAlgorithm::Md5, "cafe".to_string());
    assert_eq!(record.md5.as_deref(), Some("cafe"));
}

#[test]
fn hashing_runs_in_a_pool_only_for_several_jobs() {
    assert_eq!(hash_pool_threads(0), None);
    assert_eq!(hash_pool_threads(1), None);
    assert_eq!(hash_pool_threads(4), Some(4));
}
