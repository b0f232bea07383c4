//! Archive creation: which creator a destination name asks for, the
//! compression levels, and the timestamps written into ZIP entries.

use vstd::prelude::*;
use crate::error::ArchiveError;
use crate::paths::{file_name, file_name_of, lemma_single_name};
use crate::text::{chars_of, concat_chars, ends_with, ends_with_str, lower_chars, lower_seq, push_str, string_of};
use crate::types::{format_name, ArchiveFormat};

verus! {

/// Creates ZIP archives (AES-256 when a password is given).
#[derive(Debug, Clone, Copy, PartialEq, Eq, Structural)]
pub struct ZipCreator;

/// Creates 7z archives (LZMA2, AES-256 and an encrypted header when a
/// password is given).
#[derive(Debug, Clone, Copy, PartialEq, Eq, Structural)]
pub struct SevenZCreator;

/// Compression of a created TAR archive.
#[derive(Debug, Clone, Copy, PartialEq, Eq, Structural)]
pub enum TarCompression {
    Plain,
    Gzip,
    Xz,
}

/// Creates TAR archives, plain or compressed.
#[derive(Debug, Clone, Copy, PartialEq, Eq, Structural)]
pub struct TarCreator {
    pub compression: TarCompression,
}

impl TarCreator {
    /// A plain TAR creator.
    pub fn plain() -> (r: Self)
        ensures
            r.compression == TarCompression::Plain,
    {
        TarCreator { compression: TarCompression::Plain }
    }

    /// A gzip-compressed TAR creator.
    pub fn gzip() -> (r: Self)
        ensures
            r.compression == TarCompression::Gzip,
    {
        TarCreator { compression: TarCompression::Gzip }
    }

    /// An xz-compressed TAR creator.
    pub fn xz() -> (r: Self)
        ensures
            r.compression == TarCompression::Xz,
    {
        TarCreator { compression: TarCompression::Xz }
    }
}

/// The format each creator writes.
pub trait ArchiveCreator {
    /// The format written.
    fn format_kind(&self) -> ArchiveFormat;

    /// Whether a password can protect the archive.
    fn supports_password(&self) -> bool;
}

impl ArchiveCreator for ZipCreator {
    fn format_kind(&self) -> (r: ArchiveFormat)
        ensures
            r == ArchiveFormat::Zip,
    {
        ArchiveFormat::Zip
    }

    fn supports_password(&self) -> (r: bool)
        ensures
            r,
    {
        true
    }
}

impl ArchiveCreator for SevenZCreator {
    fn format_kind(&self) -> (r: ArchiveFormat)
        ensures
            r == ArchiveFormat::SevenZ,
    {
        ArchiveFormat::SevenZ
    }

    fn supports_password(&self) -> (r: bool)
        ensures
            r,
    {
        true
    }
}

impl ArchiveCreator for TarCreator {
    fn format_kind(&self) -> (r: ArchiveFormat)
        ensures
            r == tar_creator_format(self.compression),
    {
        match self.compression {
            TarCompression::Plain => ArchiveFormat::Tar,
            TarCompression::Gzip => ArchiveFormat::TarGz,
            TarCompression::Xz => ArchiveFormat::TarXz,
        }
    }

    fn supports_password(&self) -> (r: bool)
        ensures
            !r,
    {
        false
    }
}

/// The format of a TAR creator.
pub open spec fn tar_creator_format(c: TarCompression) -> ArchiveFormat {
    match c {
        TarCompression::Plain => ArchiveFormat::Tar,
        TarCompression::Gzip => ArchiveFormat::TarGz,
        TarCompression::Xz => ArchiveFormat::TarXz,
    }
}

/// A creator chosen by the destination name.
#[derive(Debug, Clone, Copy, PartialEq, Eq, Structural)]
pub enum Creator {
    Zip(ZipCreator),
    SevenZ(SevenZCreator),
    Tar(TarCreator),
}

impl Creator {
    /// The format the chosen creator writes.
    pub fn format_kind(&self) -> (r: ArchiveFormat)
        ensures
            r == creator_format(*self),
    {
        match self {
            Creator::Zip(c) => c.format_kind(),
            Creator::SevenZ(c) => c.format_kind(),
            Creator::Tar(c) => c.format_kind(),
        }
    }
}

/// The format a creator writes.
pub open spec fn creator_format(c: Creator) -> ArchiveFormat {
    match c {
        Creator::Zip(_) => ArchiveFormat::Zip,
        Creator::SevenZ(_) => ArchiveFormat::SevenZ,
        Creator::Tar(t) => tar_creator_format(t.compression),
    }
}

/// The format that the destination `path` asks for, by its lower-cased file
/// name: `.zip`, `.7z`, `.tar.gz`/`.tgz`, `.tar.xz`/`.txz`, `.tar`.
pub open spec fn creator_spec(path: Seq<char>) -> Option<ArchiveFormat> {
    let name = match file_name(path) {
        Some(n) => lower_seq(n),
        None => Seq::empty(),
    };
    if ends_with(name, ".zip"@) {
        Some(ArchiveFormat::Zip)
    } else if ends_with(name, ".7z"@) {
        Some(ArchiveFormat::SevenZ)
    } else if ends_with(name, ".tar.gz"@) || ends_with(name, ".tgz"@) {
        Some(ArchiveFormat::TarGz)
    } else if ends_with(name, ".tar.xz"@) || ends_with(name, ".txz"@) {
        Some(ArchiveFormat::TarXz)
    } else if ends_with(name, ".tar"@) {
        Some(ArchiveFormat::Tar)
    } else {
        None
    }
}

/// The creator for the destination `path`; other names are refused.
pub fn creator_for_path(path: &str) -> (r: Result<Creator, ArchiveError>)
    ensures
        creator_spec(path@) matches Some(f) ==> (r matches Ok(c) && creator_format(c) == f),
        creator_spec(path@) is None ==> (r matches Err(e) && e matches ArchiveError::Rejected(m)
            && m@ == "暂不支持的目标格式（支持 zip/7z/tar.gz/tar.xz/tar）："@ + path@),
{
    let p = chars_of(path);
    let name = match file_name_of(p.as_slice()) {
        Some(n) => lower_chars(n.as_slice()),
        None => Vec::new(),
    };
    let n = name.as_slice();
    if ends_with_str(n, ".zip") {
        return Ok(Creator::Zip(ZipCreator));
    }
    if ends_with_str(n, ".7z") {
        return Ok(Creator::SevenZ(SevenZCreator));
    }
    if ends_with_str(n, ".tar.gz") || ends_with_str(n, ".tgz") {
        return Ok(Creator::Tar(TarCreator::gzip()));
    }
    if ends_with_str(n, ".tar.xz") || ends_with_str(n, ".txz") {
        return Ok(Creator::Tar(TarCreator::xz()));
    }
    if ends_with_str(n, ".tar") {
        return Ok(Creator::Tar(TarCreator::plain()));
    }
    let mut v: Vec<char> = Vec::new();
    push_str(&mut v, "暂不支持的目标格式（支持 zip/7z/tar.gz/tar.xz/tar）：");
    let w = concat_chars(v.as_slice(), p.as_slice());
    Err(ArchiveError::Rejected(string_of(w.as_slice())))
}

/// The formats that can be created.
pub open spec fn creatable() -> Seq<ArchiveFormat> {
    seq![
        ArchiveFormat::Zip,
        ArchiveFormat::SevenZ,
        ArchiveFormat::TarGz,
        ArchiveFormat::TarXz,
        ArchiveFormat::Tar,
    ]
}

/// The formats that can be created (for error messages).
pub fn supported_formats() -> (r: Vec<ArchiveFormat>)
    ensures
        r@ == creatable(),
{
    let mut v: Vec<ArchiveFormat> = Vec::new();
    v.push(ArchiveFormat::Zip);
    v.push(ArchiveFormat::SevenZ);
    v.push(ArchiveFormat::TarGz);
    v.push(ArchiveFormat::TarXz);
    v.push(ArchiveFormat::Tar);
    assert(v@ =~= creatable());
    v
}

/// Every destination name that is accepted asks for a creatable format.
pub proof fn lemma_creator_creatable(path: Seq<char>)
    requires
        creator_spec(path) is Some,
    ensures
        creatable().contains(creator_spec(path).unwrap()),
{
    let f = creator_spec(path).unwrap();
    if f == ArchiveFormat::Zip {
        assert(creatable()[0] == f);
    } else if f == ArchiveFormat::SevenZ {
        assert(creatable()[1] == f);
    } else if f == ArchiveFormat::TarGz {
        assert(creatable()[2] == f);
    } else if f == ArchiveFormat::TarXz {
        assert(creatable()[3] == f);
    } else {
        assert(creatable()[4] == f);
    }
}

/// The creator that the destination `x.` followed by `ext` asks for, where
/// `ext` is a lower-case name without `/`.
proof fn lemma_named(ext: Seq<char>)
    requires
        ext.len() > 0,
        forall|j: int| 0 <= j < ext.len() ==> ext[j] != '/' && !('A' <= #[trigger] ext[j] && ext[j] <= 'Z'),
    ensures
        creator_spec("x."@ + ext) == ({
            let n = "x."@ + ext;
            if ends_with(n, ".zip"@) {
                Some(ArchiveFormat::Zip)
            } else if ends_with(n, ".7z"@) {
                Some(ArchiveFormat::SevenZ)
            } else if ends_with(n, ".tar.gz"@) || ends_with(n, ".tgz"@) {
                Some(ArchiveFormat::TarGz)
            } else if ends_with(n, ".tar.xz"@) || ends_with(n, ".txz"@) {
                Some(ArchiveFormat::TarXz)
            } else if ends_with(n, ".tar"@) {
                Some(ArchiveFormat::Tar)
            } else {
                None
            }
        }),
{
    reveal_strlit("x.");
    let n = "x."@ + ext;
    lemma_single_name(n);
    assert(lower_seq(n) =~= n);
}

/// Every format that [`supported_formats`] lists is what a destination
/// named `x.` followed by the format's name asks for, so each yields a
/// creator of its own kind.
pub proof fn lemma_supported_creatable(i: int)
    requires
        0 <= i < creatable().len(),
    ensures
        creator_spec("x."@ + format_name(creatable()[i])) == Some(creatable()[i]),
{
    reveal_strlit("x.");
    reveal_strlit(".zip");
    reveal_strlit(".7z");
    reveal_strlit(".tar.gz");
    reveal_strlit(".tgz");
    reveal_strlit(".tar.xz");
    reveal_strlit(".txz");
    reveal_strlit(".tar");
    let f = creatable()[i];
    if i == 0 {
        reveal_strlit("zip");
        lemma_named("zip"@);
        let n = "x."@ + "zip"@;
        assert(n.subrange(1, 5) =~= ".zip"@);
    } else if i == 1 {
        reveal_strlit("7z");
        lemma_named("7z"@);
        let n = "x."@ + "7z"@;
        assert(n.subrange(0, 4)[0] != ".zip"@[0]);
        assert(n.subrange(1, 4) =~= ".7z"@);
    } else if i == 2 {
        reveal_strlit("tar.gz");
        lemma_named("tar.gz"@);
        let n = "x."@ + "tar.gz"@;
        assert(n.subrange(4, 8)[0] != ".zip"@[0]);
        assert(n.subrange(5, 8)[1] != ".7z"@[1]);
        assert(n.subrange(1, 8) =~= ".tar.gz"@);
    } else if i == 3 {
        reveal_strlit("tar.xz");
        lemma_named("tar.xz"@);
        let n = "x."@ + "tar.xz"@;
        assert(n.subrange(4, 8)[0] != ".zip"@[0]);
        assert(n.subrange(5, 8)[1] != ".7z"@[1]);
        assert(n.subrange(1, 8)[5] != ".tar.gz"@[5]);
        assert(n.subrange(4, 8)[0] != ".tgz"@[0]);
        assert(n.subrange(1, 8) =~= ".tar.xz"@);
    } else {
        reveal_strlit("tar");
        lemma_named("tar"@);
        let n = "x."@ + "tar"@;
        assert(n.subrange(1, 5)[1] != ".zip"@[1]);
        assert(n.subrange(2, 5)[0] != ".7z"@[0]);
        assert(n.subrange(1, 5)[2] != ".tgz"@[2]);
        assert(n.subrange(1, 5)[2] != ".txz"@[2]);
        assert(n.subrange(1, 5) =~= ".tar"@);
    }
}

/// `v` clamped into `[lo, hi]`.
pub open spec fn clamp(v: int, lo: int, hi: int) -> int {
    if v < lo {
        lo
    } else if v > hi {
        hi
    } else {
        v
    }
}

/// Compression level of ZIP and 7z: the requested level (default 6) clamped
/// to 0..=9.
pub fn zip_level(level: Option<i32>) -> (r: i32)
    ensures
        r == clamp(
            match level {
                Some(l) => l as int,
                None => 6,
            },
            0,
            9,
        ),
        0 <= r <= 9,
{
    let l = match level {
        Some(l) => l,
        None => 6,
    };
    if l < 0 {
        0
    } else if l > 9 {
        9
    } else {
        l
    }
}

/// Compression level of compressed TAR: the requested level (default 6)
/// clamped to 1..=9.
pub fn tar_level(level: Option<i32>) -> (r: i32)
    ensures
        r == clamp(
            match level {
                Some(l) => l as int,
                None => 6,
            },
            1,
            9,
        ),
        1 <= r <= 9,
{
    let l = match level {
        Some(l) => l,
        None => 6,
    };
    if l < 1 {
        1
    } else if l > 9 {
        9
    } else {
        l
    }
}

// ---------------------------------------------------------------------------
// ZIP entry timestamps
// ---------------------------------------------------------------------------

/// Civil date (year, month, day) from a day number counted from 0000-03-01,
/// by the era / year-of-era / day-of-year decomposition of the proleptic
/// Gregorian calendar.
pub open spec fn civil_from_shifted(z: int) -> (int, int, int) {
    let era = z / 146097;
    let doe = z % 146097;
    let yoe = (doe - doe / 1460 + doe / 36524 - doe / 146096) / 365;
    let y = yoe + era * 400;
    let doy = doe - (365 * yoe + yoe / 4 - yoe / 100);
    let mp = (5 * doy + 2) / 153;
    let d = doy - (153 * mp + 2) / 5 + 1;
    let m = if mp < 10 {
        mp + 3
    } else {
        mp - 9
    };
    (if m <= 2 {
        y + 1
    } else {
        y
    }, m, d)
}

/// Number of days from 0000-03-01 to 1970-01-01.
pub open spec fn day_offset() -> int {
    719468
}

/// The civil (year, month, day) of the day `days` after 1970-01-01, as
/// written into ZIP entries (the proleptic Gregorian calendar; day `days +
/// 719468` counted from 0000-03-01). Month and day are always valid:
/// `1 <= month <= 12`, `1 <= day <= 31`.
pub fn days_to_ymd(days: i64) -> (r: (i64, i64, i64))
    requires
        i64::MIN + 146096 <= days + day_offset() <= i64::MAX,
    ensures
        (r.0 as int, r.1 as int, r.2 as int) == civil_from_shifted(days + day_offset()),
        1 <= r.1 <= 12,
        1 <= r.2 <= 31,
{
    let z = days + 719468;
    let era = if z >= 0 {
        z
    } else {
        z - 146096
    } / 146097;
    proof {
        lemma_era(z as int);
    }
    let doe = z - era * 146097;
    assert(doe as int == (z as int) % 146097);
    assert(0 <= doe < 146097);
    let yoe = (doe - doe / 1460 + doe / 36524 - doe / 146096) / 365;
    proof {
        lemma_year_of_era(doe as int);
    }
    let y = yoe + era * 400;
    let doy = doe - (365 * yoe + yoe / 4 - yoe / 100);
    assert(0 <= doy <= 365);
    let mp = (5 * doy + 2) / 153;
    assert(0 <= mp <= 11) by (nonlinear_arith)
        requires
            0 <= doy <= 365,
            mp == (5 * doy + 2) / 153,
    ;
    proof {
        lemma_month_day(doy as int, mp as int);
    }
    let d = doy - (153 * mp + 2) / 5 + 1;
    let m = if mp < 10 {
        mp + 3
    } else {
        mp - 9
    };
    (y + if m <= 2 {
        1
    } else {
        0
    }, m, d)
}

/// The era of a shifted day number, computed with truncating division on the
/// adjusted value, is the floor quotient.
proof fn lemma_era(z: int)
    requires
        i64::MIN + 146096 <= z <= i64::MAX,
    ensures
        z >= 0 ==> z / 146097 == z / 146097,
        z < 0 ==> -((146096 - z) / 146097) == z / 146097,
        0 <= z - (z / 146097) * 146097 < 146097,
        z - (z / 146097) * 146097 == z % 146097,
{
    if z < 0 {
        let q = z / 146097;
        let r = z % 146097;
        assert(z == q * 146097 + r && 0 <= r < 146097);
        assert((146096 - z) == (-q) * 146097 + (146096 - r));
        assert(0 <= 146096 - r < 146097);
        assert((146096 - z) / 146097 == -q) by (nonlinear_arith)
            requires
                (146096 - z) == (-q) * 146097 + (146096 - r),
                0 <= 146096 - r < 146097,
        ;
    }
}

/// The year of an era and the day of that year are in range.
proof fn lemma_year_of_era(doe: int)
    requires
        0 <= doe < 146097,
    ensures
        ({
            let yoe = (doe - doe / 1460 + doe / 36524 - doe / 146096) / 365;
            &&& 0 <= yoe <= 399
            &&& 0 <= doe - (365 * yoe + yoe / 4 - yoe / 100) <= 365
        }),
{
    let a = doe / 1460;
    let b = doe / 36524;
    let c = doe / 146096;
    let t = doe - a + b - c;
    let yoe = t / 365;
    assert(0 <= t <= 145999) by {
        if doe == 146096 {
            assert(a == 100 && b == 4 && c == 1);
        } else {
            assert(c == 0);
            assert(b <= 3 || (b == 4 && doe >= 146096));
            assert(a * 1460 <= doe < a * 1460 + 1460);
            assert(b * 36524 <= doe);
        }
    }
    assert(0 <= yoe <= 399);
    let doy = doe - (365 * yoe + yoe / 4 - yoe / 100);
    assert(0 <= doy <= 365) by (nonlinear_arith)
        requires
            0 <= doe < 146097,
            a == doe / 1460,
            b == doe / 36524,
            c == doe / 146096,
            t == doe - a + b - c,
            yoe == t / 365,
            doy == doe - (365 * yoe + yoe / 4 - yoe / 100),
            0 <= yoe <= 399,
    ;
}

/// The day of the month is between 1 and 31.
proof fn lemma_month_day(doy: int, mp: int)
    requires
        0 <= doy <= 365,
        mp == (5 * doy + 2) / 153,
    ensures
        1 <= doy - (153 * mp + 2) / 5 + 1 <= 31,
{
    assert(1 <= doy - (153 * mp + 2) / 5 + 1 <= 31) by (nonlinear_arith)
        requires
            0 <= doy <= 365,
            mp == (5 * doy + 2) / 153,
    ;
}

/// Days from 0000-03-01 to the first of March of year `y` of the proleptic
/// Gregorian calendar: 365 a year and one more for each leap day in
/// between (leap years are those divisible by 4, except centuries not
/// divisible by 400; the leap day ends the March-based year before them).
pub open spec fn days_to_march(y: int) -> int {
    365 * y + y / 4 - y / 100 + y / 400
}

/// Days from the first of March to the first of the month `mp` months later
/// (0: March, ..., 10: January, 11: February).
pub open spec fn days_before_month(mp: int) -> int {
    if mp <= 0 {
        0
    } else if mp == 1 {
        31
    } else if mp == 2 {
        61
    } else if mp == 3 {
        92
    } else if mp == 4 {
        122
    } else if mp == 5 {
        153
    } else if mp == 6 {
        184
    } else if mp == 7 {
        214
    } else if mp == 8 {
        245
    } else if mp == 9 {
        275
    } else if mp == 10 {
        306
    } else {
        337
    }
}

/// The number of days from 1970-01-01 to the date `y`-`m`-`d`.
pub open spec fn day_number(y: int, m: int, d: int) -> int {
    let march_year = if m <= 2 {
        y - 1
    } else {
        y
    };
    let mp = if m >= 3 {
        m - 3
    } else {
        m + 9
    };
    days_to_march(march_year) + days_before_month(mp) + d - 1 - day_offset()
}

/// The month offsets that the day-of-year arithmetic computes are those of
/// the calendar.
proof fn lemma_month_offsets(mp: int)
    requires
        0 <= mp <= 11,
    ensures
        (153 * mp + 2) / 5 == days_before_month(mp),
{
}

/// Shifting a year by whole 400-year eras shifts its March count by whole
/// eras of 146097 days.
proof fn lemma_days_to_march_era(yoe: int, era: int)
    requires
        0 <= yoe <= 399,
    ensures
        days_to_march(yoe + 400 * era) == 365 * yoe + yoe / 4 - yoe / 100 + 146097 * era,
{
    assert((yoe + 400 * era) / 4 == yoe / 4 + 100 * era) by (nonlinear_arith)
        requires
            0 <= yoe <= 399,
    ;
    assert((yoe + 400 * era) / 100 == yoe / 100 + 4 * era) by (nonlinear_arith)
        requires
            0 <= yoe <= 399,
    ;
    assert((yoe + 400 * era) / 400 == era) by (nonlinear_arith)
        requires
            0 <= yoe <= 399,
    ;
}

/// The date that [`days_to_ymd`] gives counts back to the day it was given:
/// the number of days from 1970-01-01 to it, counted month by month and
/// year by year with the leap-year rule, is `days`.
pub proof fn lemma_date_counts_back(days: int)
    requires
        i64::MIN + 146096 <= days + day_offset() <= i64::MAX,
    ensures
        ({
            let (y, m, d) = civil_from_shifted(days + day_offset());
            day_number(y, m, d) == days
        }),
{
    let z = days + day_offset();
    let era = z / 146097;
    let doe = z % 146097;
    assert(0 <= doe < 146097);
    assert(z == era * 146097 + doe);
    lemma_year_of_era(doe);
    let yoe = (doe - doe / 1460 + doe / 36524 - doe / 146096) / 365;
    let doy = doe - (365 * yoe + yoe / 4 - yoe / 100);
    let mp = (5 * doy + 2) / 153;
    assert(0 <= mp <= 11) by (nonlinear_arith)
        requires
            0 <= doy <= 365,
            mp == (5 * doy + 2) / 153,
    ;
    lemma_month_offsets(mp);
    lemma_days_to_march_era(yoe, era);
    assert(yoe + era * 400 == yoe + 400 * era);
}

/// Hours, minutes and seconds of the day of a Unix time.
pub fn time_of_day(secs: i64) -> (r: (u32, u32, u32))
    requires
        secs >= 0,
    ensures
        r.0 == (secs % 86400) / 3600,
        r.1 == ((secs % 86400) % 3600) / 60,
        r.2 == (secs % 86400) % 60,
        r.0 < 24 && r.1 < 60 && r.2 < 60,
{
    let rem = secs % 86400;
    let hour = (rem / 3600) as u32;
    let min = ((rem % 3600) / 60) as u32;
    let sec = (rem % 60) as u32;
    (hour, min, sec)
}

/// A date and time as a ZIP entry stores it.
#[verifier::external_type_specification]
#[verifier::external_body]
pub struct ExZipDateTime(zip::DateTime);

/// Leap years as the `zip` crate counts them.
pub open spec fn zip_leap_year(year: u16) -> bool {
    year % 4 == 0 && (year % 25 != 0 || year % 16 == 0)
}

/// Days of `month` in `year`.
pub open spec fn zip_month_days(year: u16, month: u8) -> u8 {
    if month == 2 {
        if zip_leap_year(year) {
            29
        } else {
            28
        }
    } else if month == 4 || month == 6 || month == 9 || month == 11 {
        30
    } else {
        31
    }
}

/// A date and time that a ZIP entry can store: years 1980 to 2107, a real
/// day of a month, and a time of day (a leap second allowed).
pub open spec fn zip_date_valid(year: u16, month: u8, day: u8, hour: u8, minute: u8, second: u8) -> bool {
    &&& 1980 <= year <= 2107
    &&& 1 <= month <= 12
    &&& 1 <= day <= zip_month_days(year, month)
    &&& hour <= 23
    &&& minute <= 59
    &&& second <= 60
}

/// What a `zip::DateTime` holds, as its getters `year`, `month`, `day`,
/// `hour`, `minute` and `second` read it back.
pub uninterp spec fn zip_dt_fields(dt: zip::DateTime) -> (u16, u8, u8, u8, u8, u8);

/// The seconds a ZIP entry keeps of `second`: at most 58, rounded down to
/// an even number (two-second resolution).
pub open spec fn zip_stored_second(second: u8) -> u8 {
    let s = if second > 58 {
        58u8
    } else {
        second
    };
    (s / 2 * 2) as u8
}

/// `zip::DateTime::from_date_and_time`: a value exactly when the fields are
/// in range (see [`zip_date_valid`]), and then one that holds the date and
/// time given, the seconds as [`zip_stored_second`] keeps them.
#[verifier::external_body]
fn zip_date_time(year: u16, month: u8, day: u8, hour: u8, minute: u8, second: u8) -> (r: Option<
    zip::DateTime,
>)
    ensures
        r is Some <==> zip_date_valid(year, month, day, hour, minute, second),
        r matches Some(dt) ==> zip_dt_fields(dt) == (
            year,
            month,
            day,
            hour,
            minute,
            zip_stored_second(second),
        ),
{
    zip::DateTime::from_date_and_time(year, month, day, hour, minute, second).ok()
}

/// The ZIP timestamp of a file modified `secs` seconds after the Unix
/// epoch: its civil date (the year taken as a `u16`) and time of day, when
/// a ZIP entry can store them.
pub fn zip_timestamp(secs: i64) -> (r: Option<zip::DateTime>)
    requires
        secs >= 0,
    ensures
        ({
            let (y, m, d) = civil_from_shifted(secs / 86400 + day_offset());
            let rem = secs % 86400;
            &&& r is Some <==> zip_date_valid(
                y as u16,
                m as u8,
                d as u8,
                (rem / 3600) as u8,
                ((rem % 3600) / 60) as u8,
                (rem % 60) as u8,
            )
            &&& r matches Some(dt) ==> zip_dt_fields(dt) == (
                y as u16,
                m as u8,
                d as u8,
                (rem / 3600) as u8,
                ((rem % 3600) / 60) as u8,
                zip_stored_second((rem % 60) as u8),
            )
        }),
{
    let (hour, min, sec) = time_of_day(secs);
    let (y, mo, d) = days_to_ymd(secs / 86400);
    zip_date_time(y as u16, mo as u8, d as u8, hour as u8, min as u8, sec as u8)
}

} // verus!

verus! {

/// The path a ZIP or TAR entry gets inside a new archive: the requested path
/// without trailing `/`, sanitised like an extracted path.
pub fn entry_name_trimmed(archive_path: &str) -> (r: Result<String, ArchiveError>)
    ensures
        crate::safety::sanitize_result(crate::extract::strip_trailing(archive_path@), crate::safety::DEFAULT_MAX_PATH_LEN, r),
{
    let c = chars_of(archive_path);
    let mut end: usize = c.len();
    assert(c@.take(c@.len() as int) =~= c@);
    while end > 0 && c[end - 1] == '/'
        invariant
            end <= c@.len(),
            crate::extract::strip_trailing(c@) == crate::extract::strip_trailing(c@.take(end as int)),
        decreases end,
    {
        assert(c@.take(end as int).drop_last() =~= c@.take(end - 1));
        end -= 1;
    }
    let t = crate::text::slice_chars(c.as_slice(), 0, end);
    assert(t@ =~= c@.take(end as int));
    let s = string_of(t.as_slice());
    crate::safety::sanitize_entry_path(s.as_str(), "")
}

/// Whether the requested archive path marks a directory (trailing `/`).
pub fn marks_directory(archive_path: &str) -> (r: bool)
    ensures
        r == ends_with(archive_path@, seq!['/']),
{
    let c = chars_of(archive_path);
    let slash = chars_of("/");
    proof {
        reveal_strlit("/");
        assert(slash@ =~= seq!['/']);
    }
    crate::text::ends_with_chars(c.as_slice(), slash.as_slice())
}

} // verus!
