//! Integrity verification of a finished download: the verdict drawn from what
//! the filesystem and ffprobe report, and the SHA-256 digest of its contents (see `sha256`).
use vstd::prelude::*;

use crate::text::{concat, digit_char, digit_char_exec, owned, push_char};

verus! {

/// The outcome of verifying a downloaded file.
pub struct VerificationResult {
    pub is_valid: bool,
    pub error_msg: Option<String>,
    pub file_size_bytes: i64,
    pub duration_seconds: Option<i64>,
    pub sha256_hash: Option<String>,
}

/// What the filesystem reports of a downloaded file.
pub enum FileEntry {
    /// Nothing exists at the path.
    Missing,
    /// The path names a directory or another non-file.
    NotAFile,
    /// Reading the file's metadata failed with this message.
    MetadataError(String),
    /// A file of this many bytes.
    Size(i64),
}

/// The view of a verification result: validity, message, size, duration, SHA-256 digest.
pub struct VerificationView {
    pub is_valid: bool,
    pub error_msg: Option<Seq<char>>,
    pub file_size_bytes: i64,
    pub duration_seconds: Option<i64>,
    pub sha256_hash: Option<Seq<char>>,
}

impl View for VerificationResult {
    type V = VerificationView;

    open spec fn view(&self) -> VerificationView {
        VerificationView {
            is_valid: self.is_valid,
            error_msg: crate::presets::opt_string_view(self.error_msg),
            file_size_bytes: self.file_size_bytes,
            duration_seconds: self.duration_seconds,
            sha256_hash: crate::presets::opt_string_view(self.sha256_hash),
        }
    }
}

/// A failed verification with a message and a size.
pub open spec fn failed(msg: Seq<char>, size: i64) -> VerificationView {
    VerificationView {
        is_valid: false,
        error_msg: Some(msg),
        file_size_bytes: size,
        duration_seconds: None,
        sha256_hash: None,
    }
}

/// The contents of the file are checked (by ffprobe and the SHA-256 digest) only for
/// a non-empty regular file.
pub open spec fn content_checked(entry: FileEntry) -> bool {
    match entry {
        FileEntry::Size(n) => n != 0,
        _ => false,
    }
}

/// The verdict on a download, from what the filesystem reports, the ffprobe
/// duration check (`None` where ffprobe is not available) and the SHA-256 digest
/// (`None` where none was asked for or it could not be read).
pub open spec fn verdict(
    entry: FileEntry,
    probe: Option<Result<i64, Seq<char>>>,
    hash: Option<Seq<char>>,
) -> VerificationView {
    match entry {
        FileEntry::Missing => failed("Downloaded file does not exist on disk."@, 0),
        FileEntry::NotAFile => failed("Target path is a directory, not a file."@, 0),
        FileEntry::MetadataError(e) => failed("Failed to read file metadata: "@ + e@, 0),
        FileEntry::Size(n) => if n == 0 {
            failed("Completed file has an empty 0-byte size."@, 0)
        } else {
            match probe {
                Some(Err(e)) => failed("ffprobe container check failed: "@ + e, n),
                _ => VerificationView {
                    is_valid: true,
                    error_msg: None,
                    file_size_bytes: n,
                    duration_seconds: match probe {
                        Some(Ok(d)) => Some(d),
                        _ => None,
                    },
                    sha256_hash: hash,
                },
            }
        },
    }
}

/// Whether the file's contents are to be checked next (ffprobe, SHA-256 digest).
pub fn needs_content_checks(entry: &FileEntry) -> (r: bool)
    ensures
        r == content_checked(*entry),
{
    match entry {
        FileEntry::Size(n) => *n != 0,
        _ => false,
    }
}

fn failure(msg: String, size: i64) -> (r: VerificationResult)
    ensures
        r@ == failed(msg@, size),
{
    VerificationResult {
        is_valid: false,
        error_msg: Some(msg),
        file_size_bytes: size,
        duration_seconds: None,
        sha256_hash: None,
    }
}

/// The verdict on a downloaded file from what was found out about it.
pub fn verification_verdict(
    entry: FileEntry,
    probe: Option<Result<i64, String>>,
    hash: Option<String>,
) -> (r: VerificationResult)
    ensures
        r@ == verdict(
            entry,
            match probe {
                Some(Ok(d)) => Some(Ok(d)),
                Some(Err(e)) => Some(Err(e@)),
                None => None,
            },
            crate::presets::opt_string_view(hash),
        ),
{
    match entry {
        FileEntry::Missing => failure(owned("Downloaded file does not exist on disk."), 0),
        FileEntry::NotAFile => failure(owned("Target path is a directory, not a file."), 0),
        FileEntry::MetadataError(e) => failure(
            concat("Failed to read file metadata: ", e.as_str()),
            0,
        ),
        FileEntry::Size(n) => {
            if n == 0 {
                return failure(owned("Completed file has an empty 0-byte size."), 0);
            }
            match probe {
                Some(Err(e)) => failure(concat("ffprobe container check failed: ", e.as_str()), n),
                Some(Ok(d)) => VerificationResult {
                    is_valid: true,
                    error_msg: None,
                    file_size_bytes: n,
                    duration_seconds: Some(d),
                    sha256_hash: hash,
                },
                None => VerificationResult {
                    is_valid: true,
                    error_msg: None,
                    file_size_bytes: n,
                    duration_seconds: None,
                    sha256_hash: hash,
                },
            }
        },
    }
}

// ---------------------------------------------------------------------------
// Hexadecimal digits
// ---------------------------------------------------------------------------

/// The last `n` hexadecimal digits of `x`, zero padded.
pub open spec fn hex_digits(x: nat, n: nat) -> Seq<char>
    decreases n,
{
    if n == 0 {
        Seq::empty()
    } else {
        hex_digits(x / 16, (n - 1) as nat).push(digit_char(x % 16))
    }
}

/// The last `n` hexadecimal digits of `x`, zero padded.
pub(crate) fn hex_digits_exec(x: u64, n: usize) -> (r: String)
    ensures
        r@ == hex_digits(x as nat, n as nat),
    decreases n,
{
    if n == 0 {
        String::new()
    } else {
        let mut r = hex_digits_exec(x / 16, n - 1);
        push_char(&mut r, digit_char_exec(x % 16));
        r
    }
}

/// `hex_digits(x, n)` has `n` digits.
pub proof fn lemma_hex_len(x: nat, n: nat)
    ensures
        hex_digits(x, n).len() == n,
    decreases n,
{
    if n > 0 {
        lemma_hex_len(x / 16, (n - 1) as nat);
    }
}


/// A download is reported valid exactly when it is a non-empty file that
/// ffprobe did not reject; a valid report carries no message and the file's size.
pub proof fn lemma_verdict_validity(
    entry: FileEntry,
    probe: Option<Result<i64, Seq<char>>>,
    hash: Option<Seq<char>>,
)
    ensures
        verdict(entry, probe, hash).is_valid <==> (content_checked(entry) && !(probe matches Some(
            Err(_),
        ))),
        verdict(entry, probe, hash).is_valid ==> (verdict(entry, probe, hash).error_msg is None && (
        entry matches FileEntry::Size(n) && verdict(entry, probe, hash).file_size_bytes == n)),
        !verdict(entry, probe, hash).is_valid ==> verdict(entry, probe, hash).error_msg is Some
            && verdict(entry, probe, hash).duration_seconds is None
            && verdict(entry, probe, hash).sha256_hash is None,
{
}

} // verus!
