//! Archive formats, entries, extraction options, limits and summaries.

use vstd::prelude::*;
use crate::error::ArchiveError;

verus! {

/// The archive formats the library knows.
#[derive(Debug, Clone, Copy, PartialEq, Eq, Structural)]
pub enum ArchiveFormat {
    Zip,
    SevenZ,
    Rar,
    Tar,
    Gzip,
    Bzip2,
    Xz,
    Zstd,
    TarGz,
    TarBz2,
    TarXz,
    TarZst,
}

/// The short name of each format.
pub open spec fn format_name(f: ArchiveFormat) -> Seq<char> {
    match f {
        ArchiveFormat::Zip => "zip"@,
        ArchiveFormat::SevenZ => "7z"@,
        ArchiveFormat::Rar => "rar"@,
        ArchiveFormat::Tar => "tar"@,
        ArchiveFormat::Gzip => "gzip"@,
        ArchiveFormat::Bzip2 => "bzip2"@,
        ArchiveFormat::Xz => "xz"@,
        ArchiveFormat::Zstd => "zstd"@,
        ArchiveFormat::TarGz => "tar.gz"@,
        ArchiveFormat::TarBz2 => "tar.bz2"@,
        ArchiveFormat::TarXz => "tar.xz"@,
        ArchiveFormat::TarZst => "tar.zst"@,
    }
}

impl ArchiveFormat {
    /// The short name of the format (also what `Display` prints).
    pub fn as_str(&self) -> (r: &'static str)
        ensures
            r@ == format_name(*self),
    {
        match self {
            ArchiveFormat::Zip => "zip",
            ArchiveFormat::SevenZ => "7z",
            ArchiveFormat::Rar => "rar",
            ArchiveFormat::Tar => "tar",
            ArchiveFormat::Gzip => "gzip",
            ArchiveFormat::Bzip2 => "bzip2",
            ArchiveFormat::Xz => "xz",
            ArchiveFormat::Zstd => "zstd",
            ArchiveFormat::TarGz => "tar.gz",
            ArchiveFormat::TarBz2 => "tar.bz2",
            ArchiveFormat::TarXz => "tar.xz",
            ArchiveFormat::TarZst => "tar.zst",
        }
    }
}

/// Distinct formats have distinct names, so a name identifies its format.
pub proof fn lemma_format_name_injective(a: ArchiveFormat, b: ArchiveFormat)
    requires
        format_name(a) == format_name(b),
    ensures
        a == b,
{
    reveal_strlit("zip");
    reveal_strlit("7z");
    reveal_strlit("rar");
    reveal_strlit("tar");
    reveal_strlit("gzip");
    reveal_strlit("bzip2");
    reveal_strlit("xz");
    reveal_strlit("zstd");
    reveal_strlit("tar.gz");
    reveal_strlit("tar.bz2");
    reveal_strlit("tar.xz");
    reveal_strlit("tar.zst");
    if a != b {
        let x = format_name(a);
        let y = format_name(b);
        assert(x.len() != y.len() || exists|i: int| 0 <= i < x.len() && x[i] != y[i]) by {
            if x.len() == y.len() {
                if x.len() == 2 {
                    assert(x[0] != y[0]);
                } else if x.len() == 3 {
                    assert(x[0] != y[0] || x[1] != y[1]);
                } else if x.len() == 4 {
                    assert(x[1] != y[1]);
                } else if x.len() == 6 {
                    assert(x[4] != y[4]);
                } else if x.len() == 7 {
                    assert(x[4] != y[4] || x[5] != y[5]);
                }
            }
        }
    }
}

/// Metadata of one archive entry (its path as stored, not sanitised).
#[derive(Debug, Clone, PartialEq, Eq)]
pub struct ArchiveEntry {
    /// Path inside the archive, as stored.
    pub path: String,
    /// Uncompressed size in bytes (0 when unknown).
    pub size: u64,
    /// Compressed size in bytes (0 when unknown).
    pub compressed_size: u64,
    /// Whether the entry is a directory.
    pub is_dir: bool,
    /// Whether the entry is encrypted.
    pub is_encrypted: bool,
    /// Modification time in Unix seconds, when known.
    pub modified: Option<u64>,
}

impl ArchiveEntry {
    /// An entry with the given path and every other field empty.
    pub fn named(path: String) -> (r: ArchiveEntry)
        ensures
            r.path@ == path@,
            r.size == 0,
            r.compressed_size == 0,
            !r.is_dir,
            !r.is_encrypted,
            r.modified is None,
    {
        ArchiveEntry {
            path,
            size: 0,
            compressed_size: 0,
            is_dir: false,
            is_encrypted: false,
            modified: None,
        }
    }
}

/// What to do when the output file already exists.
#[derive(Debug, Clone, Copy, PartialEq, Eq, Structural)]
pub enum OverwritePolicy {
    /// Keep the existing file and skip the entry (the default).
    Skip,
    /// Replace the existing file.
    Overwrite,
    /// Write under a new name with a numeric suffix.
    Rename,
    /// Fail.
    Error,
}

impl Default for OverwritePolicy {
    fn default() -> (r: Self)
        ensures
            r == OverwritePolicy::Skip,
    {
        OverwritePolicy::Skip
    }
}

/// Resource limits of one extraction (against decompression bombs).
#[derive(Debug, Clone, Copy, PartialEq, Eq, Structural)]
pub struct ExtractLimits {
    /// Upper bound on the total of extracted bytes (default 4 GiB).
    pub max_total_bytes: u64,
    /// Upper bound on the size of one file (default 1 GiB).
    pub max_file_bytes: u64,
    /// Upper bound on uncompressed / compressed size (default 200).
    pub max_ratio: u64,
    /// Upper bound on the number of entries (default 100000).
    pub max_entries: usize,
    /// Upper bound on the byte length of a sanitised entry path (default 4096).
    pub max_path_len: usize,
}

/// The default limits.
pub open spec fn default_limits() -> ExtractLimits {
    ExtractLimits {
        max_total_bytes: 4_294_967_296u64,
        max_file_bytes: 1_073_741_824u64,
        max_ratio: 200,
        max_entries: 100_000,
        max_path_len: 4096,
    }
}

impl Default for ExtractLimits {
    fn default() -> (r: Self)
        ensures
            r == default_limits(),
    {
        ExtractLimits {
            max_total_bytes: 4 * 1024 * 1024 * 1024,
            max_file_bytes: 1024 * 1024 * 1024,
            max_ratio: 200,
            max_entries: 100_000,
            max_path_len: 4096,
        }
    }
}

impl ExtractLimits {
    /// Checks the number of entries against the limit.
    pub fn check_entries(&self, count: usize) -> (r: Result<(), ArchiveError>)
        ensures
            count <= self.max_entries ==> r is Ok,
            count > self.max_entries ==> r == Err::<(), ArchiveError>(
                ArchiveError::TooManyEntries { actual: count, max: self.max_entries },
            ),
    {
        if count > self.max_entries {
            Err(ArchiveError::TooManyEntries { actual: count, max: self.max_entries })
        } else {
            Ok(())
        }
    }

    /// Checks the size of one file against the limit.
    pub fn check_file_size(&self, size: u64) -> (r: Result<(), ArchiveError>)
        ensures
            size <= self.max_file_bytes ==> r is Ok,
            size > self.max_file_bytes ==> r == Err::<(), ArchiveError>(
                ArchiveError::FileTooLarge { actual: size, max: self.max_file_bytes },
            ),
    {
        if size > self.max_file_bytes {
            Err(ArchiveError::FileTooLarge { actual: size, max: self.max_file_bytes })
        } else {
            Ok(())
        }
    }
}

/// Options of one extraction.
#[derive(Debug, Clone, PartialEq, Eq)]
pub struct ExtractOptions {
    /// Password of an encrypted archive.
    pub password: Option<String>,
    /// What to do with existing files.
    pub overwrite: OverwritePolicy,
    /// Keep directory modification times.
    pub keep_dir_mtime: bool,
    /// Skip symbolic links (default true).
    pub skip_symlinks: bool,
    /// Resource limits.
    pub limits: ExtractLimits,
}

impl Default for ExtractOptions {
    fn default() -> (r: Self)
        ensures
            r.password is None,
            r.overwrite == OverwritePolicy::Skip,
            r.keep_dir_mtime,
            r.skip_symlinks,
            r.limits == default_limits(),
    {
        ExtractOptions {
            password: None,
            overwrite: OverwritePolicy::Skip,
            keep_dir_mtime: true,
            skip_symlinks: true,
            limits: ExtractLimits::default(),
        }
    }
}

/// Counters of one finished (or cancelled) operation.
#[derive(Debug, Clone, PartialEq, Eq)]
pub struct ExtractSummary {
    pub entries_total: usize,
    pub entries_extracted: usize,
    pub entries_skipped: usize,
    pub bytes_written: u64,
    pub cancelled: bool,
    /// Paths (relative to the destination) of the files committed so far.
    pub extracted_paths: Vec<String>,
}

impl Default for ExtractSummary {
    fn default() -> (r: Self)
        ensures
            r.entries_total == 0,
            r.entries_extracted == 0,
            r.entries_skipped == 0,
            r.bytes_written == 0,
            !r.cancelled,
            r.extracted_paths@.len() == 0,
    {
        ExtractSummary {
            entries_total: 0,
            entries_extracted: 0,
            entries_skipped: 0,
            bytes_written: 0,
            cancelled: false,
            extracted_paths: Vec::new(),
        }
    }
}

} // verus!
