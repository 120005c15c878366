use vstd::prelude::*;

use crate::model::{MacbRecord, RecordView};
use crate::text::{append_str, ascii_lower_spec, push_char, str_eq, to_ascii_lowercase};

verus! {

/// The MD5 digest of a byte sequence (16 bytes), as md-5 computes it.
pub uninterp spec fn md5_digest_spec(data: Seq<u8>) -> Seq<u8>;

/// The SHA-256 digest of a byte sequence (32 bytes), as sha2 computes it.
pub uninterp spec fn sha256_digest_spec(data: Seq<u8>) -> Seq<u8>;

/// md-5 `Md5::digest`: the MD5 digest of `data`. Its output type holds
/// exactly 16 bytes.
#[verifier::external_body]
fn md5_digest(data: &[u8]) -> (r: Vec<u8>)
    ensures
        r@ == md5_digest_spec(data@),
        r@.len() == 16,
{
    <md5::Md5 as md5::Digest>::digest(data).to_vec()
}

/// sha2 `Sha256::digest`: the SHA-256 digest of `data`. Its output type holds
/// exactly 32 bytes.
#[verifier::external_body]
fn sha256_digest(data: &[u8]) -> (r: Vec<u8>)
    ensures
        r@ == sha256_digest_spec(data@),
        r@.len() == 32,
{
    <sha2::Sha256 as sha2::Digest>::digest(data).to_vec()
}

/// The digest algorithms a scan can compute.
#[derive(Debug, Clone, Copy, PartialEq, Eq, Structural)]
pub enum HashAlgorithm {
    Md5,
    Sha256,
}

/// An algorithm name that is not supported; holds the name as given.
#[derive(Debug)]
pub struct UnsupportedHashAlgorithm {
    pub value: String,
}

/// The message for an unsupported algorithm name.
pub open spec fn unsupported_hash_message_spec(value: Seq<char>) -> Seq<char> {
    "unsupported hash algorithm '"@ + value + "' (use md5 or sha256)"@
}

impl UnsupportedHashAlgorithm {
    pub fn message(&self) -> (r: String)
        ensures
            r@ == unsupported_hash_message_spec(self.value@),
    {
        let mut out = String::new();
        append_str(&mut out, "unsupported hash algorithm '");
        append_str(&mut out, self.value.as_str());
        append_str(&mut out, "' (use md5 or sha256)");
        out
    }
}

/// The algorithm an option names, compared without regard to ASCII case:
/// `md5`, or `sha256` / `sha-256`.
pub open spec fn hash_algorithm_spec(value: Seq<char>) -> Option<HashAlgorithm> {
    let lower = ascii_lower_spec(value);
    if lower == "md5"@ {
        Some(HashAlgorithm::Md5)
    } else if lower == "sha256"@ || lower == "sha-256"@ {
        Some(HashAlgorithm::Sha256)
    } else {
        None
    }
}

impl HashAlgorithm {
    pub fn parse(value: &str) -> (r: Result<HashAlgorithm, UnsupportedHashAlgorithm>)
        ensures
            match hash_algorithm_spec(value@) {
                Some(a) => r == Ok::<HashAlgorithm, UnsupportedHashAlgorithm>(a),
                None => r matches Err(e) && e.value@ == value@,
            },
    {
        let lower = to_ascii_lowercase(value);
        if str_eq(lower.as_str(), "md5") {
            Ok(HashAlgorithm::Md5)
        } else if str_eq(lower.as_str(), "sha256") || str_eq(lower.as_str(), "sha-256") {
            Ok(HashAlgorithm::Sha256)
        } else {
            Err(UnsupportedHashAlgorithm { value: value.to_string() })
        }
    }
}

/// The digest an algorithm gives for a byte sequence.
pub open spec fn digest_spec(algorithm: HashAlgorithm, data: Seq<u8>) -> Seq<u8> {
    match algorithm {
        HashAlgorithm::Md5 => md5_digest_spec(data),
        HashAlgorithm::Sha256 => sha256_digest_spec(data),
    }
}

/// The lower-case hex digit for a value below 16.
pub open spec fn hex_digit_spec(d: u8) -> char {
    if d < 10 {
        (48 + d) as char
    } else {
        (87 + d) as char
    }
}

/// Bytes as lower-case hex, two digits per byte.
pub open spec fn hex_lower_spec(bytes: Seq<u8>) -> Seq<char>
    decreases bytes.len(),
{
    if bytes.len() == 0 {
        seq![]
    } else {
        hex_lower_spec(bytes.drop_last()) + seq![
            hex_digit_spec(bytes.last() / 16),
            hex_digit_spec(bytes.last() % 16),
        ]
    }
}

fn hex_digit(d: u8) -> (r: char)
    requires
        d < 16,
    ensures
        r == hex_digit_spec(d),
{
    if d < 10 {
        let b: u8 = d + 48;
        b as char
    } else {
        let b: u8 = d + 87;
        b as char
    }
}

/// Bytes as lower-case hex, two digits per byte.
pub fn hex_lower(bytes: &[u8]) -> (r: String)
    ensures
        r@ == hex_lower_spec(bytes@),
{
    let mut out = String::new();
    let mut i: usize = 0;
    while i < bytes.len()
        invariant
            i <= bytes@.len(),
            out@ == hex_lower_spec(bytes@.take(i as int)),
        decreases bytes.len() - i,
    {
        let b = bytes[i];
        push_char(&mut out, hex_digit(b / 16));
        push_char(&mut out, hex_digit(b % 16));
        proof {
            let t = bytes@.take(i + 1);
            assert(t.drop_last() =~= bytes@.take(i as int));
            assert(out@ =~= hex_lower_spec(t));
        }
        i += 1;
    }
    assert(bytes@.take(bytes@.len() as int) =~= bytes@);
    out
}

/// The digest of a file's contents, as lower-case hex.
pub fn digest_hex(algorithm: HashAlgorithm, data: &[u8]) -> (r: String)
    ensures
        r@ == hex_lower_spec(digest_spec(algorithm, data@)),
{
    let digest = match algorithm {
        HashAlgorithm::Md5 => md5_digest(data),
        HashAlgorithm::Sha256 => sha256_digest(data),
    };
    hex_lower(digest.as_slice())
}

/// The digest field an algorithm fills.
pub open spec fn digest_field(r: RecordView, algorithm: HashAlgorithm) -> Option<Seq<char>> {
    match algorithm {
        HashAlgorithm::Md5 => r.md5,
        HashAlgorithm::Sha256 => r.sha256,
    }
}

/// A mode names a regular file (`S_IFREG` in its file-type bits).
pub open spec fn is_regular_mode(mode: u32) -> bool {
    mode & 0o170000u32 == 0o100000u32
}

/// A live record is hashed when it is a regular file (by its mode: not a
/// directory, symbolic link or special file) that still exists on disk (not
/// deleted) and has no digest of that kind yet.
pub open spec fn needs_hash_spec(r: RecordView, algorithm: HashAlgorithm) -> bool {
    &&& r.mode matches Some(m) && is_regular_mode(m)
    &&& !r.is_dir
    &&& !r.deleted
    &&& digest_field(r, algorithm) is None
}

pub fn needs_hash(record: &MacbRecord, algorithm: HashAlgorithm) -> (r: bool)
    ensures
        r == needs_hash_spec(record@, algorithm),
{
    let regular = match record.mode {
        Some(m) => m & 0o170000u32 == 0o100000u32,
        None => false,
    };
    if !regular || record.is_dir || record.deleted {
        return false;
    }
    match algorithm {
        HashAlgorithm::Md5 => record.md5.is_none(),
        HashAlgorithm::Sha256 => record.sha256.is_none(),
    }
}

/// The record with a digest stored in the algorithm's field.
pub open spec fn with_digest(r: RecordView, algorithm: HashAlgorithm, digest: Seq<char>) -> RecordView {
    match algorithm {
        HashAlgorithm::Md5 => RecordView { md5: Some(digest), ..r },
        HashAlgorithm::Sha256 => RecordView { sha256: Some(digest), ..r },
    }
}

/// Stores a computed digest in the record.
pub fn apply_digest(record: &mut MacbRecord, algorithm: HashAlgorithm, digest: String)
    ensures
        final(record)@ == with_digest(old(record)@, algorithm, digest@),
{
    match algorithm {
        HashAlgorithm::Md5 => record.md5 = Some(digest),
        HashAlgorithm::Sha256 => record.sha256 = Some(digest),
    }
}

/// The number of worker threads for hashing: none (hash in the calling
/// thread) for one job or fewer, else the job count.
pub fn hash_pool_threads(jobs: usize) -> (r: Option<usize>)
    ensures
        jobs <= 1 ==> r is None,
        jobs > 1 ==> r == Some(jobs),
{
    if jobs <= 1 {
        None
    } else {
        Some(jobs)
    }
}

} // verus!
