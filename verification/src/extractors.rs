//! The extractors of each format, what each one supports, and the choice of
//! extractor for a detected format.

use vstd::prelude::*;
use crate::detect::detect_format;
use crate::detect::detect_spec;
use crate::error::ArchiveError;
use crate::paths::file_name;
use crate::text::{chars_of, concat_chars, push_str, string_of, utf8_len};
use crate::volumes::{boundary_from_end, first_volume_answer, first_volume_path};
use crate::types::{format_name, ArchiveFormat};

verus! {

/// What an extractor can do.
pub trait ArchiveExtractor {
    /// The format it reads.
    fn format_kind(&self) -> ArchiveFormat;

    /// Whether it can open encrypted archives with a password.
    fn supports_password(&self) -> bool;

    /// Whether it can extract a chosen subset of entries.
    fn supports_partial(&self) -> bool;

    /// Whether it can test archive integrity without writing.
    fn supports_test(&self) -> bool;
}

/// ZIP archives (AES and ZipCrypto passwords).
#[derive(Debug, Clone, Copy, PartialEq, Eq, Structural)]
pub struct ZipExtractor;

/// 7z archives (AES-256 passwords, split `.7z.NNN` sets).
#[derive(Debug, Clone, Copy, PartialEq, Eq, Structural)]
pub struct SevenZExtractor;

/// RAR archives (RAR4 and RAR5, passwords), extracted through an isolation
/// directory and committed entry by entry.
#[derive(Debug, Clone, Copy, PartialEq, Eq, Structural)]
pub struct RarExtractor;

/// A format that this build cannot read.
#[derive(Debug, Clone, Copy, PartialEq, Eq, Structural)]
pub struct UnsupportedExtractor(pub ArchiveFormat);

/// Single compressed files.
#[derive(Debug, Clone, Copy, PartialEq, Eq, Structural)]
pub enum GzExtractor {
    Gzip,
    Bzip2,
    Xz,
    Zstd,
}

/// Compression around a TAR archive.
#[derive(Debug, Clone, Copy, PartialEq, Eq, Structural)]
pub enum Compression {
    Plain,
    Gzip,
    Bzip2,
    Xz,
    Zstd,
}

/// TAR archives, plain or compressed.
#[derive(Debug, Clone, Copy, PartialEq, Eq, Structural)]
pub struct TarExtractor {
    pub compression: Compression,
}

impl GzExtractor {
    /// The format of the stream.
    pub fn kind(&self) -> (r: ArchiveFormat)
        ensures
            r == gz_format(*self),
    {
        match self {
            GzExtractor::Gzip => ArchiveFormat::Gzip,
            GzExtractor::Bzip2 => ArchiveFormat::Bzip2,
            GzExtractor::Xz => ArchiveFormat::Xz,
            GzExtractor::Zstd => ArchiveFormat::Zstd,
        }
    }
}

/// The format of a single compressed stream.
pub open spec fn gz_format(g: GzExtractor) -> ArchiveFormat {
    match g {
        GzExtractor::Gzip => ArchiveFormat::Gzip,
        GzExtractor::Bzip2 => ArchiveFormat::Bzip2,
        GzExtractor::Xz => ArchiveFormat::Xz,
        GzExtractor::Zstd => ArchiveFormat::Zstd,
    }
}

/// The format of a (compressed) TAR archive.
pub open spec fn tar_format(c: Compression) -> ArchiveFormat {
    match c {
        Compression::Plain => ArchiveFormat::Tar,
        Compression::Gzip => ArchiveFormat::TarGz,
        Compression::Bzip2 => ArchiveFormat::TarBz2,
        Compression::Xz => ArchiveFormat::TarXz,
        Compression::Zstd => ArchiveFormat::TarZst,
    }
}

impl TarExtractor {
    /// Plain TAR.
    pub fn plain() -> (r: Self)
        ensures
            r.compression == Compression::Plain,
    {
        TarExtractor { compression: Compression::Plain }
    }

    /// gzip-compressed TAR.
    pub fn gzip() -> (r: Self)
        ensures
            r.compression == Compression::Gzip,
    {
        TarExtractor { compression: Compression::Gzip }
    }

    /// bzip2-compressed TAR.
    pub fn bzip2() -> (r: Self)
        ensures
            r.compression == Compression::Bzip2,
    {
        TarExtractor { compression: Compression::Bzip2 }
    }

    /// xz-compressed TAR.
    pub fn xz() -> (r: Self)
        ensures
            r.compression == Compression::Xz,
    {
        TarExtractor { compression: Compression::Xz }
    }

    /// zstd-compressed TAR.
    pub fn zstd() -> (r: Self)
        ensures
            r.compression == Compression::Zstd,
    {
        TarExtractor { compression: Compression::Zstd }
    }
}

impl ArchiveExtractor for ZipExtractor {
    fn format_kind(&self) -> (r: ArchiveFormat)
        ensures
            r == ArchiveFormat::Zip,
    {
        ArchiveFormat::Zip
    }

    fn supports_password(&self) -> (r: bool)
        ensures
            r,
    {
        true
    }

    fn supports_partial(&self) -> (r: bool)
        ensures
            r,
    {
        true
    }

    fn supports_test(&self) -> (r: bool)
        ensures
            r,
    {
        true
    }
}

impl ArchiveExtractor for SevenZExtractor {
    fn format_kind(&self) -> (r: ArchiveFormat)
        ensures
            r == ArchiveFormat::SevenZ,
    {
        ArchiveFormat::SevenZ
    }

    fn supports_password(&self) -> (r: bool)
        ensures
            r,
    {
        true
    }

    fn supports_partial(&self) -> (r: bool)
        ensures
            r,
    {
        true
    }

    fn supports_test(&self) -> (r: bool)
        ensures
            r,
    {
        true
    }
}

impl ArchiveExtractor for RarExtractor {
    fn format_kind(&self) -> (r: ArchiveFormat)
        ensures
            r == ArchiveFormat::Rar,
    {
        ArchiveFormat::Rar
    }

    fn supports_password(&self) -> (r: bool)
        ensures
            r,
    {
        true
    }

    fn supports_partial(&self) -> (r: bool)
        ensures
            !r,
    {
        false
    }

    fn supports_test(&self) -> (r: bool)
        ensures
            !r,
    {
        false
    }
}

impl ArchiveExtractor for TarExtractor {
    fn format_kind(&self) -> (r: ArchiveFormat)
        ensures
            r == tar_format(self.compression),
    {
        match self.compression {
            Compression::Plain => ArchiveFormat::Tar,
            Compression::Gzip => ArchiveFormat::TarGz,
            Compression::Bzip2 => ArchiveFormat::TarBz2,
            Compression::Xz => ArchiveFormat::TarXz,
            Compression::Zstd => ArchiveFormat::TarZst,
        }
    }

    fn supports_password(&self) -> (r: bool)
        ensures
            !r,
    {
        false
    }

    fn supports_partial(&self) -> (r: bool)
        ensures
            !r,
    {
        false
    }

    fn supports_test(&self) -> (r: bool)
        ensures
            !r,
    {
        false
    }
}

impl ArchiveExtractor for GzExtractor {
    fn format_kind(&self) -> (r: ArchiveFormat)
        ensures
            r == gz_format(*self),
    {
        self.kind()
    }

    fn supports_password(&self) -> (r: bool)
        ensures
            !r,
    {
        false
    }

    fn supports_partial(&self) -> (r: bool)
        ensures
            !r,
    {
        false
    }

    fn supports_test(&self) -> (r: bool)
        ensures
            !r,
    {
        false
    }
}

impl ArchiveExtractor for UnsupportedExtractor {
    fn format_kind(&self) -> (r: ArchiveFormat)
        ensures
            r == self.0,
    {
        self.0
    }

    fn supports_password(&self) -> (r: bool)
        ensures
            !r,
    {
        false
    }

    fn supports_partial(&self) -> (r: bool)
        ensures
            !r,
    {
        false
    }

    fn supports_test(&self) -> (r: bool)
        ensures
            !r,
    {
        false
    }
}

impl UnsupportedExtractor {
    /// The error that listing or extracting gives: the format needs the RAR
    /// support of the build.
    pub fn unsupported_error(&self) -> (r: ArchiveError)
        ensures
            r matches ArchiveError::Unsupported(m) && m@ == format_name(self.0)
                + " 需要启用 `rar` feature（编译时 --features rar）"@,
    {
        let name = chars_of(self.0.as_str());
        let mut tail: Vec<char> = Vec::new();
        push_str(&mut tail, " 需要启用 `rar` feature（编译时 --features rar）");
        let v = concat_chars(name.as_slice(), tail.as_slice());
        ArchiveError::Unsupported(string_of(v.as_slice()))
    }
}

/// The extractor chosen for a format.
#[derive(Debug, Clone, Copy, PartialEq, Eq, Structural)]
pub enum Extractor {
    Zip(ZipExtractor),
    SevenZ(SevenZExtractor),
    Tar(TarExtractor),
    Single(GzExtractor),
    Rar(RarExtractor),
    Unsupported(UnsupportedExtractor),
}

/// The format an extractor reads.
pub open spec fn extractor_format(e: Extractor) -> ArchiveFormat {
    match e {
        Extractor::Zip(_) => ArchiveFormat::Zip,
        Extractor::SevenZ(_) => ArchiveFormat::SevenZ,
        Extractor::Tar(t) => tar_format(t.compression),
        Extractor::Single(g) => gz_format(g),
        Extractor::Rar(_) => ArchiveFormat::Rar,
        Extractor::Unsupported(u) => u.0,
    }
}

impl Extractor {
    /// The format the extractor reads.
    pub fn format_kind(&self) -> (r: ArchiveFormat)
        ensures
            r == extractor_format(*self),
    {
        match self {
            Extractor::Zip(x) => x.format_kind(),
            Extractor::SevenZ(x) => x.format_kind(),
            Extractor::Tar(x) => x.format_kind(),
            Extractor::Single(x) => x.format_kind(),
            Extractor::Rar(x) => x.format_kind(),
            Extractor::Unsupported(x) => x.format_kind(),
        }
    }

    /// Whether it can extract a chosen subset of entries (ZIP and 7z only).
    pub fn supports_partial(&self) -> (r: bool)
        ensures
            r == (*self is Zip || *self is SevenZ),
    {
        match self {
            Extractor::Zip(x) => x.supports_partial(),
            Extractor::SevenZ(x) => x.supports_partial(),
            Extractor::Tar(x) => x.supports_partial(),
            Extractor::Single(x) => x.supports_partial(),
            Extractor::Rar(x) => x.supports_partial(),
            Extractor::Unsupported(x) => x.supports_partial(),
        }
    }

    /// Whether it accepts a password (ZIP, 7z, RAR).
    pub fn supports_password(&self) -> (r: bool)
        ensures
            r == (*self is Zip || *self is SevenZ || *self is Rar),
    {
        match self {
            Extractor::Zip(x) => x.supports_password(),
            Extractor::SevenZ(x) => x.supports_password(),
            Extractor::Tar(x) => x.supports_password(),
            Extractor::Single(x) => x.supports_password(),
            Extractor::Rar(x) => x.supports_password(),
            Extractor::Unsupported(x) => x.supports_password(),
        }
    }

    /// Whether it can test integrity (ZIP and 7z).
    pub fn supports_test(&self) -> (r: bool)
        ensures
            r == (*self is Zip || *self is SevenZ),
    {
        match self {
            Extractor::Zip(x) => x.supports_test(),
            Extractor::SevenZ(x) => x.supports_test(),
            Extractor::Tar(x) => x.supports_test(),
            Extractor::Single(x) => x.supports_test(),
            Extractor::Rar(x) => x.supports_test(),
            Extractor::Unsupported(x) => x.supports_test(),
        }
    }
}

/// The extractor that reads `fmt`; RAR only with the RAR support of the
/// build, else an [`UnsupportedExtractor`] that remembers the format.
pub open spec fn dispatch_spec(fmt: ArchiveFormat, rar_enabled: bool) -> Extractor {
    match fmt {
        ArchiveFormat::Zip => Extractor::Zip(ZipExtractor),
        ArchiveFormat::SevenZ => Extractor::SevenZ(SevenZExtractor),
        ArchiveFormat::Tar => Extractor::Tar(TarExtractor { compression: Compression::Plain }),
        ArchiveFormat::Gzip => Extractor::Single(GzExtractor::Gzip),
        ArchiveFormat::Bzip2 => Extractor::Single(GzExtractor::Bzip2),
        ArchiveFormat::Xz => Extractor::Single(GzExtractor::Xz),
        ArchiveFormat::Zstd => Extractor::Single(GzExtractor::Zstd),
        ArchiveFormat::TarGz => Extractor::Tar(TarExtractor { compression: Compression::Gzip }),
        ArchiveFormat::TarBz2 => Extractor::Tar(TarExtractor { compression: Compression::Bzip2 }),
        ArchiveFormat::TarXz => Extractor::Tar(TarExtractor { compression: Compression::Xz }),
        ArchiveFormat::TarZst => Extractor::Tar(TarExtractor { compression: Compression::Zstd }),
        ArchiveFormat::Rar => if rar_enabled {
            Extractor::Rar(RarExtractor)
        } else {
            Extractor::Unsupported(UnsupportedExtractor(ArchiveFormat::Rar))
        },
    }
}

/// The extractor for a known format. RAR needs the RAR support of the build
/// (`rar_enabled`); without it RAR archives get an [`UnsupportedExtractor`].
pub fn dispatcher_for_format(fmt: ArchiveFormat, rar_enabled: bool) -> (r: Extractor)
    ensures
        r == dispatch_spec(fmt, rar_enabled),
        fmt != ArchiveFormat::Rar ==> extractor_format(r) == fmt && !(r is Unsupported),
        fmt == ArchiveFormat::Rar && rar_enabled ==> r == Extractor::Rar(RarExtractor),
        fmt == ArchiveFormat::Rar && !rar_enabled ==> r == Extractor::Unsupported(
            UnsupportedExtractor(ArchiveFormat::Rar),
        ),
{
    match fmt {
        ArchiveFormat::Zip => Extractor::Zip(ZipExtractor),
        ArchiveFormat::SevenZ => Extractor::SevenZ(SevenZExtractor),
        ArchiveFormat::Tar => Extractor::Tar(TarExtractor::plain()),
        ArchiveFormat::Gzip => Extractor::Single(GzExtractor::Gzip),
        ArchiveFormat::Bzip2 => Extractor::Single(GzExtractor::Bzip2),
        ArchiveFormat::Xz => Extractor::Single(GzExtractor::Xz),
        ArchiveFormat::Zstd => Extractor::Single(GzExtractor::Zstd),
        ArchiveFormat::TarGz => Extractor::Tar(TarExtractor::gzip()),
        ArchiveFormat::TarBz2 => Extractor::Tar(TarExtractor::bzip2()),
        ArchiveFormat::TarXz => Extractor::Tar(TarExtractor::xz()),
        ArchiveFormat::TarZst => Extractor::Tar(TarExtractor::zstd()),
        ArchiveFormat::Rar => {
            if rar_enabled {
                Extractor::Rar(RarExtractor)
            } else {
                Extractor::Unsupported(UnsupportedExtractor(ArchiveFormat::Rar))
            }
        },
    }
}

/// Detects the format of the file at `path` from its first bytes and returns
/// its extractor.
pub fn open(path: &str, head: &[u8], rar_enabled: bool) -> (r: Result<Extractor, ArchiveError>)
    ensures
        detect_spec(path@, head@) matches Some(f) ==> r == Ok::<Extractor, ArchiveError>(
            dispatch_spec(f, rar_enabled),
        ),
        detect_spec(path@, head@) is None ==> (r matches Err(e) && e matches ArchiveError::UnknownFormat(
            p,
        ) && p@ == path@),
{
    let fmt = detect_format(path, head)?;
    Ok(dispatcher_for_format(fmt, rar_enabled))
}

/// The first volume of the split set that the file at `path` belongs to, if
/// `path` names a later volume whose first volume exists (see
/// [`first_volume_path`]).
pub fn resolve_first_volume<F: Fn(&str) -> bool>(path: &str, present: F) -> (r: Option<String>)
    requires
        file_name(path@) matches Some(n) ==> (utf8_len(n) > 4 ==> boundary_from_end(n, 4)),
        forall|s: &str| #[trigger] present.requires((s,)),
    ensures
        first_volume_answer(present, path@, r),
{
    first_volume_path(path, present)
}

/// How a request to extract chosen entries is served.
#[derive(Debug, Clone, PartialEq, Eq)]
pub enum PartialRoute {
    /// Extract the whole archive (no entries were chosen).
    Whole,
    /// Extract only the chosen entries.
    Chosen,
    /// Refuse with this error: the format cannot pick entries.
    Refused(ArchiveError),
}

/// The route of a partial extraction with `chosen` entries chosen: ZIP and
/// 7z pick entries (none chosen means all of them); every other format
/// refuses with [`partial_unsupported`]'s error.
pub fn partial_route(ex: &Extractor, chosen: usize) -> (r: PartialRoute)
    ensures
        (ex is Zip || ex is SevenZ) && chosen == 0 ==> r == PartialRoute::Whole,
        (ex is Zip || ex is SevenZ) && chosen > 0 ==> r == PartialRoute::Chosen,
        !(ex is Zip || ex is SevenZ) ==> (r matches PartialRoute::Refused(e) && e matches ArchiveError::Unsupported(m)
            && m@ == "该格式不支持部分解压"@),
{
    match ex {
        Extractor::Zip(_) | Extractor::SevenZ(_) => {
            if chosen == 0 {
                PartialRoute::Whole
            } else {
                PartialRoute::Chosen
            }
        },
        _ => PartialRoute::Refused(partial_unsupported()),
    }
}

/// The refusal of partial extraction by a format that streams its entries.
pub fn partial_unsupported() -> (r: ArchiveError)
    ensures
        r matches ArchiveError::Unsupported(m) && m@ == "该格式不支持部分解压"@,
{
    let c = chars_of("该格式不支持部分解压");
    ArchiveError::Unsupported(string_of(c.as_slice()))
}

} // verus!
