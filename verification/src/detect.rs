//! Format detection: magic bytes first, the `ustar` mark of TAR next, the file
//! extension last; and the names of the first volume of a split archive.

use vstd::prelude::*;
use crate::error::ArchiveError;
use crate::paths::{file_name, file_name_of, split_extension, stem_and_extension};
use crate::text::{
    all_digit_chars, all_digits, chars_eq, chars_of, concat_chars, ends_with, ends_with_str,
    find, find_chars, lower_chars, lower_seq, parse_u32, parse_u32_chars, push_str, slice_chars,
    string_of, zero_padded, zero_padded_chars,
};
use crate::types::ArchiveFormat;

verus! {

/// The single-stream compressions that may wrap a TAR archive.
#[derive(Debug, Clone, Copy, PartialEq, Eq, Structural)]
pub enum Single {
    Gzip,
    Bzip2,
    Xz,
    Zstd,
}

/// Whether a lower-cased file name carries a compressed-TAR suffix.
pub open spec fn has_tar_suffix(name: Seq<char>) -> bool {
    ends_with(name, ".tar.gz"@) || ends_with(name, ".tar.bz2"@) || ends_with(name, ".tar.xz"@)
        || ends_with(name, ".tar.zst"@) || ends_with(name, ".tgz"@) || ends_with(name, ".tbz2"@)
        || ends_with(name, ".tbz"@) || ends_with(name, ".txz"@) || ends_with(name, ".tzst"@)
        || ends_with(name, ".tzs"@)
}

/// The lower-cased file name of a path, or the empty name.
pub open spec fn lower_name(path: Seq<char>) -> Seq<char> {
    match file_name(path) {
        Some(n) => lower_seq(n),
        None => Seq::empty(),
    }
}

/// The format of a single compressed stream, told apart from a compressed
/// TAR by the file name.
pub open spec fn pick_spec(path: Seq<char>, s: Single) -> ArchiveFormat {
    let tar = has_tar_suffix(lower_name(path));
    match s {
        Single::Gzip => if tar { ArchiveFormat::TarGz } else { ArchiveFormat::Gzip },
        Single::Bzip2 => if tar { ArchiveFormat::TarBz2 } else { ArchiveFormat::Bzip2 },
        Single::Xz => if tar { ArchiveFormat::TarXz } else { ArchiveFormat::Xz },
        Single::Zstd => if tar { ArchiveFormat::TarZst } else { ArchiveFormat::Zstd },
    }
}

/// The lower-cased extension of a path (`Path::extension`).
pub open spec fn ext_spec(path: Seq<char>) -> Option<Seq<char>> {
    match file_name(path) {
        Some(n) => match stem_and_extension(n).1 {
            Some(e) => Some(lower_seq(e)),
            None => None,
        },
        None => None,
    }
}

/// The compound TAR extension of a path, if it has one.
pub open spec fn compound_spec(path: Seq<char>) -> Option<Seq<char>> {
    match file_name(path) {
        Some(n) => {
            let l = lower_seq(n);
            if ends_with(l, ".tar.gz"@) {
                Some("tar.gz"@)
            } else if ends_with(l, ".tar.bz2"@) {
                Some("tar.bz2"@)
            } else if ends_with(l, ".tar.xz"@) {
                Some("tar.xz"@)
            } else if ends_with(l, ".tar.zst"@) {
                Some("tar.zst"@)
            } else {
                None
            }
        },
        None => None,
    }
}

/// `head` begins with `magic`.
pub open spec fn has_magic(head: Seq<u8>, magic: Seq<u8>) -> bool {
    head.len() >= magic.len() && head.take(magic.len() as int) == magic
}

/// The format a known extension stands for.
pub open spec fn format_of_extension(e: Seq<char>) -> Option<ArchiveFormat> {
    if e == "zip"@ {
        Some(ArchiveFormat::Zip)
    } else if e == "7z"@ {
        Some(ArchiveFormat::SevenZ)
    } else if e == "rar"@ {
        Some(ArchiveFormat::Rar)
    } else if e == "tar"@ {
        Some(ArchiveFormat::Tar)
    } else if e == "gz"@ || e == "gzip"@ {
        Some(ArchiveFormat::Gzip)
    } else if e == "bz2"@ {
        Some(ArchiveFormat::Bzip2)
    } else if e == "xz"@ {
        Some(ArchiveFormat::Xz)
    } else if e == "zst"@ || e == "zstd"@ {
        Some(ArchiveFormat::Zstd)
    } else if e == "tgz"@ {
        Some(ArchiveFormat::TarGz)
    } else if e == "tbz2"@ || e == "tbz"@ {
        Some(ArchiveFormat::TarBz2)
    } else if e == "txz"@ {
        Some(ArchiveFormat::TarXz)
    } else if e == "tzst"@ || e == "tzs"@ {
        Some(ArchiveFormat::TarZst)
    } else {
        None
    }
}

/// The format of a compound TAR extension.
pub open spec fn format_of_compound(c: Option<Seq<char>>) -> Option<ArchiveFormat> {
    match c {
        Some(e) => if e == "tar.gz"@ {
            Some(ArchiveFormat::TarGz)
        } else if e == "tar.bz2"@ {
            Some(ArchiveFormat::TarBz2)
        } else if e == "tar.xz"@ {
            Some(ArchiveFormat::TarXz)
        } else {
            Some(ArchiveFormat::TarZst)
        },
        None => None,
    }
}

/// The format detected from the first bytes `head` of the file at `path`
/// (`None`: not recognised).
pub open spec fn detect_spec(path: Seq<char>, head: Seq<u8>) -> Option<ArchiveFormat> {
    if has_magic(head, seq![0x50u8, 0x4b, 0x03, 0x04]) || has_magic(
        head,
        seq![0x50u8, 0x4b, 0x05, 0x06],
    ) || has_magic(head, seq![0x50u8, 0x4b, 0x07, 0x08]) {
        Some(ArchiveFormat::Zip)
    } else if has_magic(head, seq![0x37u8, 0x7a, 0xbc, 0xaf, 0x27, 0x1c]) {
        Some(ArchiveFormat::SevenZ)
    } else if has_magic(head, seq![0x52u8, 0x61, 0x72, 0x21, 0x1a, 0x07, 0x01]) || has_magic(
        head,
        seq![0x52u8, 0x61, 0x72, 0x21, 0x1a, 0x07, 0x00],
    ) {
        Some(ArchiveFormat::Rar)
    } else if has_magic(head, seq![0x1fu8, 0x8b]) {
        Some(pick_spec(path, Single::Gzip))
    } else if has_magic(head, seq![0x42u8, 0x5a, 0x68]) {
        Some(pick_spec(path, Single::Bzip2))
    } else if has_magic(head, seq![0xfdu8, 0x37, 0x7a, 0x58, 0x5a, 0x00]) {
        Some(pick_spec(path, Single::Xz))
    } else if has_magic(head, seq![0x28u8, 0xb5, 0x2f, 0xfd]) {
        Some(pick_spec(path, Single::Zstd))
    } else if head.len() >= 263 && head.subrange(257, 262) == seq![0x75u8, 0x73, 0x74, 0x61, 0x72] {
        Some(ArchiveFormat::Tar)
    } else {
        match ext_spec(path) {
            Some(e) => match format_of_extension(e) {
                Some(f) => Some(f),
                None => format_of_compound(compound_spec(path)),
            },
            None => None,
        }
    }
}

/// The content decides before the name: a file that starts with the
/// signature of ZIP, 7z or RAR, or carries the TAR mark, is detected as that
/// format whatever its path (a renamed archive is still recognised).
pub proof fn lemma_signature_beats_name(p1: Seq<char>, p2: Seq<char>, head: Seq<u8>)
    requires
        has_magic(head, seq![0x50u8, 0x4b, 0x03, 0x04]) || has_magic(
            head,
            seq![0x37u8, 0x7a, 0xbc, 0xaf, 0x27, 0x1c],
        ) || has_magic(head, seq![0x52u8, 0x61, 0x72, 0x21, 0x1a, 0x07, 0x01]) || (head.len() >= 263
            && head.subrange(257, 262) == seq![0x75u8, 0x73, 0x74, 0x61, 0x72] && !has_magic(
            head,
            seq![0x1fu8, 0x8b],
        ) && !has_magic(head, seq![0x42u8, 0x5a, 0x68]) && !has_magic(
            head,
            seq![0xfdu8, 0x37, 0x7a, 0x58, 0x5a, 0x00],
        ) && !has_magic(head, seq![0x28u8, 0xb5, 0x2f, 0xfd])),
    ensures
        detect_spec(p1, head) == detect_spec(p2, head),
        detect_spec(p1, head) is Some,
{
}

/// Without a recognised signature the name decides: two files whose first
/// bytes carry no signature are detected alike when their extensions agree.
pub proof fn lemma_name_decides_without_signature(p1: Seq<char>, p2: Seq<char>, head: Seq<u8>)
    requires
        head.len() < 2,
        ext_spec(p1) == ext_spec(p2),
        compound_spec(p1) == compound_spec(p2),
    ensures
        detect_spec(p1, head) == detect_spec(p2, head),
{
}

/// A compressed tarball is detected as the compressed TAR format: a file
/// whose name ends, in any letter case, with `.tar.gz`, `.tar.bz2`,
/// `.tar.xz` or `.tar.zst` and whose first bytes are the signature of that
/// compression (gzip `1F 8B`, bzip2 `BZh`, xz `FD 37 7A 58 5A 00`, zstd
/// `28 B5 2F FD`) is a TAR archive inside that compression.
pub proof fn lemma_compressed_tarball(path: Seq<char>, name: Seq<char>, head: Seq<u8>)
    requires
        file_name(path) == Some(name),
    ensures
        ends_with(lower_seq(name), ".tar.gz"@) && head.len() >= 2 && head[0] == 0x1f && head[1]
            == 0x8b ==> detect_spec(path, head) == Some(ArchiveFormat::TarGz),
        ends_with(lower_seq(name), ".tar.bz2"@) && head.len() >= 3 && head[0] == 0x42 && head[1]
            == 0x5a && head[2] == 0x68 ==> detect_spec(path, head) == Some(ArchiveFormat::TarBz2),
        ends_with(lower_seq(name), ".tar.xz"@) && head.len() >= 6 && head[0] == 0xfd && head[1]
            == 0x37 && head[2] == 0x7a && head[3] == 0x58 && head[4] == 0x5a && head[5] == 0x00
            ==> detect_spec(path, head) == Some(ArchiveFormat::TarXz),
        ends_with(lower_seq(name), ".tar.zst"@) && head.len() >= 4 && head[0] == 0x28 && head[1]
            == 0xb5 && head[2] == 0x2f && head[3] == 0xfd ==> detect_spec(path, head) == Some(
            ArchiveFormat::TarZst,
        ),
{
    if head.len() >= 7 {
        assert(head.take(7)[0] == head[0]);
    }
    if head.len() >= 2 {
        assert(head.take(2) =~= seq![head[0], head[1]]);
    }
    if head.len() >= 3 {
        assert(head.take(3) =~= seq![head[0], head[1], head[2]]);
    }
    if head.len() >= 4 {
        assert(head.take(4) =~= seq![head[0], head[1], head[2], head[3]]);
    }
    if head.len() >= 6 {
        assert(head.take(6) =~= seq![head[0], head[1], head[2], head[3], head[4], head[5]]);
    }
}

/// Whether `head` starts with the bytes `magic`.
fn starts_with_bytes(head: &[u8], magic: &[u8]) -> (r: bool)
    ensures
        r == has_magic(head@, magic@),
{
    if head.len() < magic.len() {
        return false;
    }
    let mut i: usize = 0;
    while i < magic.len()
        invariant
            i <= magic.len(),
            magic.len() <= head.len(),
            forall|j: int| 0 <= j < i ==> head@[j] == magic@[j],
        decreases magic.len() - i,
    {
        if head[i] != magic[i] {
            assert(head@.take(magic@.len() as int)[i as int] != magic@[i as int]);
            return false;
        }
        i += 1;
    }
    assert(head@.take(magic@.len() as int) =~= magic@);
    true
}

/// The lower-cased file name of a path, or the empty name.
fn lower_name_of(path: &[char]) -> (r: Vec<char>)
    ensures
        r@ == lower_name(path@),
{
    match file_name_of(path) {
        Some(n) => lower_chars(n.as_slice()),
        None => Vec::new(),
    }
}

/// Tells a compressed TAR from a single compressed file by the file name.
pub fn pick_tar_or_single(path: &str, s: Single) -> (r: ArchiveFormat)
    ensures
        r == pick_spec(path@, s),
{
    let p = chars_of(path);
    pick_for(p.as_slice(), s)
}

fn pick_for(path: &[char], s: Single) -> (r: ArchiveFormat)
    ensures
        r == pick_spec(path@, s),
{
    let name = lower_name_of(path);
    let n = name.as_slice();
    let is_tar = ends_with_str(n, ".tar.gz") || ends_with_str(n, ".tar.bz2") || ends_with_str(
        n,
        ".tar.xz",
    ) || ends_with_str(n, ".tar.zst") || ends_with_str(n, ".tgz") || ends_with_str(n, ".tbz2")
        || ends_with_str(n, ".tbz") || ends_with_str(n, ".txz") || ends_with_str(n, ".tzst")
        || ends_with_str(n, ".tzs");
    match (s, is_tar) {
        (Single::Gzip, true) => ArchiveFormat::TarGz,
        (Single::Gzip, false) => ArchiveFormat::Gzip,
        (Single::Bzip2, true) => ArchiveFormat::TarBz2,
        (Single::Bzip2, false) => ArchiveFormat::Bzip2,
        (Single::Xz, true) => ArchiveFormat::TarXz,
        (Single::Xz, false) => ArchiveFormat::Xz,
        (Single::Zstd, true) => ArchiveFormat::TarZst,
        (Single::Zstd, false) => ArchiveFormat::Zstd,
    }
}

/// The lower-cased extension of a path.
pub fn ext_of(path: &str) -> (r: Option<String>)
    ensures
        r matches Some(e) ==> ext_spec(path@) == Some(e@),
        r is None ==> ext_spec(path@) is None,
{
    let p = chars_of(path);
    match ext_chars(p.as_slice()) {
        Some(e) => Some(string_of(e.as_slice())),
        None => None,
    }
}

fn ext_chars(path: &[char]) -> (r: Option<Vec<char>>)
    ensures
        r matches Some(e) ==> ext_spec(path@) == Some(e@),
        r is None ==> ext_spec(path@) is None,
{
    match file_name_of(path) {
        Some(n) => {
            let (_stem, ext) = split_extension(n.as_slice());
            match ext {
                Some(e) => Some(lower_chars(e.as_slice())),
                None => None,
            }
        },
        None => None,
    }
}

/// The compound TAR extension of a path (`tar.gz`, `tar.bz2`, `tar.xz`,
/// `tar.zst`), if it has one.
pub fn compound_ext(path: &str) -> (r: Option<String>)
    ensures
        r matches Some(e) ==> compound_spec(path@) == Some(e@),
        r is None ==> compound_spec(path@) is None,
{
    let p = chars_of(path);
    match compound_chars(p.as_slice()) {
        Some(e) => Some(string_of(e.as_slice())),
        None => None,
    }
}

fn compound_chars(path: &[char]) -> (r: Option<Vec<char>>)
    ensures
        r matches Some(e) ==> compound_spec(path@) == Some(e@),
        r is None ==> compound_spec(path@) is None,
{
    match file_name_of(path) {
        Some(n) => {
            let l = lower_chars(n.as_slice());
            let s = l.as_slice();
            if ends_with_str(s, ".tar.gz") {
                Some(chars_of("tar.gz"))
            } else if ends_with_str(s, ".tar.bz2") {
                Some(chars_of("tar.bz2"))
            } else if ends_with_str(s, ".tar.xz") {
                Some(chars_of("tar.xz"))
            } else if ends_with_str(s, ".tar.zst") {
                Some(chars_of("tar.zst"))
            } else {
                None
            }
        },
        None => None,
    }
}

/// Whether `e` equals the literal `lit`.
fn is_lit(e: &[char], lit: &str) -> (r: bool)
    ensures
        r == (e@ == lit@),
{
    let l = chars_of(lit);
    chars_eq(e, l.as_slice())
}

fn format_of_ext(e: &[char]) -> (r: Option<ArchiveFormat>)
    ensures
        r == format_of_extension(e@),
{
    if is_lit(e, "zip") {
        Some(ArchiveFormat::Zip)
    } else if is_lit(e, "7z") {
        Some(ArchiveFormat::SevenZ)
    } else if is_lit(e, "rar") {
        Some(ArchiveFormat::Rar)
    } else if is_lit(e, "tar") {
        Some(ArchiveFormat::Tar)
    } else if is_lit(e, "gz") || is_lit(e, "gzip") {
        Some(ArchiveFormat::Gzip)
    } else if is_lit(e, "bz2") {
        Some(ArchiveFormat::Bzip2)
    } else if is_lit(e, "xz") {
        Some(ArchiveFormat::Xz)
    } else if is_lit(e, "zst") || is_lit(e, "zstd") {
        Some(ArchiveFormat::Zstd)
    } else if is_lit(e, "tgz") {
        Some(ArchiveFormat::TarGz)
    } else if is_lit(e, "tbz2") || is_lit(e, "tbz") {
        Some(ArchiveFormat::TarBz2)
    } else if is_lit(e, "txz") {
        Some(ArchiveFormat::TarXz)
    } else if is_lit(e, "tzst") || is_lit(e, "tzs") {
        Some(ArchiveFormat::TarZst)
    } else {
        None
    }
}

/// Detects the format of the file at `path` from its first bytes `head`
/// (at most 512 bytes read from its start): magic bytes first, then the TAR
/// `ustar` mark at offset 257, then the extension.
pub fn detect_format(path: &str, head: &[u8]) -> (r: Result<ArchiveFormat, ArchiveError>)
    ensures
        detect_spec(path@, head@) matches Some(f) ==> r == Ok::<ArchiveFormat, ArchiveError>(f),
        detect_spec(path@, head@) is None ==> (r matches Err(e) && e matches ArchiveError::UnknownFormat(
            p,
        ) && p@ == path@),
{
    let p = chars_of(path);
    let ps = p.as_slice();
    let zip1: [u8; 4] = [0x50, 0x4b, 0x03, 0x04];
    let zip2: [u8; 4] = [0x50, 0x4b, 0x05, 0x06];
    let zip3: [u8; 4] = [0x50, 0x4b, 0x07, 0x08];
    assert(zip1@ =~= seq![0x50u8, 0x4b, 0x03, 0x04]);
    assert(zip2@ =~= seq![0x50u8, 0x4b, 0x05, 0x06]);
    assert(zip3@ =~= seq![0x50u8, 0x4b, 0x07, 0x08]);
    if starts_with_bytes(head, &zip1) || starts_with_bytes(head, &zip2) || starts_with_bytes(
        head,
        &zip3,
    ) {
        return Ok(ArchiveFormat::Zip);
    }
    let sz: [u8; 6] = [0x37, 0x7a, 0xbc, 0xaf, 0x27, 0x1c];
    assert(sz@ =~= seq![0x37u8, 0x7a, 0xbc, 0xaf, 0x27, 0x1c]);
    if starts_with_bytes(head, &sz) {
        return Ok(ArchiveFormat::SevenZ);
    }
    let rar5: [u8; 7] = [0x52, 0x61, 0x72, 0x21, 0x1a, 0x07, 0x01];
    let rar4: [u8; 7] = [0x52, 0x61, 0x72, 0x21, 0x1a, 0x07, 0x00];
    assert(rar5@ =~= seq![0x52u8, 0x61, 0x72, 0x21, 0x1a, 0x07, 0x01]);
    assert(rar4@ =~= seq![0x52u8, 0x61, 0x72, 0x21, 0x1a, 0x07, 0x00]);
    if starts_with_bytes(head, &rar5) || starts_with_bytes(head, &rar4) {
        return Ok(ArchiveFormat::Rar);
    }
    let gz: [u8; 2] = [0x1f, 0x8b];
    assert(gz@ =~= seq![0x1fu8, 0x8b]);
    if starts_with_bytes(head, &gz) {
        return Ok(pick_for(ps, Single::Gzip));
    }
    let bz: [u8; 3] = [0x42, 0x5a, 0x68];
    assert(bz@ =~= seq![0x42u8, 0x5a, 0x68]);
    if starts_with_bytes(head, &bz) {
        return Ok(pick_for(ps, Single::Bzip2));
    }
    let xz: [u8; 6] = [0xfd, 0x37, 0x7a, 0x58, 0x5a, 0x00];
    assert(xz@ =~= seq![0xfdu8, 0x37, 0x7a, 0x58, 0x5a, 0x00]);
    if starts_with_bytes(head, &xz) {
        return Ok(pick_for(ps, Single::Xz));
    }
    let zst: [u8; 4] = [0x28, 0xb5, 0x2f, 0xfd];
    assert(zst@ =~= seq![0x28u8, 0xb5, 0x2f, 0xfd]);
    if starts_with_bytes(head, &zst) {
        return Ok(pick_for(ps, Single::Zstd));
    }
    if head.len() >= 263 && head[257] == 0x75 && head[258] == 0x73 && head[259] == 0x74
        && head[260] == 0x61 && head[261] == 0x72 {
        assert(head@.subrange(257, 262) =~= seq![0x75u8, 0x73, 0x74, 0x61, 0x72]);
        return Ok(ArchiveFormat::Tar);
    }
    assert(!(head@.len() >= 263 && head@.subrange(257, 262) == seq![
        0x75u8,
        0x73,
        0x74,
        0x61,
        0x72,
    ])) by {
        if head@.len() >= 263 && head@.subrange(257, 262) == seq![
            0x75u8,
            0x73,
            0x74,
            0x61,
            0x72,
        ] {
            assert(head@.subrange(257, 262)[0] == head@[257]);
            assert(head@.subrange(257, 262)[1] == head@[258]);
            assert(head@.subrange(257, 262)[2] == head@[259]);
            assert(head@.subrange(257, 262)[3] == head@[260]);
            assert(head@.subrange(257, 262)[4] == head@[261]);
        }
    }
    match ext_chars(ps) {
        Some(e) => {
            match format_of_ext(e.as_slice()) {
                Some(f) => Ok(f),
                None => match compound_chars(ps) {
                    Some(c) => {
                        let cs = c.as_slice();
                        if is_lit(cs, "tar.gz") {
                            Ok(ArchiveFormat::TarGz)
                        } else if is_lit(cs, "tar.bz2") {
                            Ok(ArchiveFormat::TarBz2)
                        } else if is_lit(cs, "tar.xz") {
                            Ok(ArchiveFormat::TarXz)
                        } else {
                            Ok(ArchiveFormat::TarZst)
                        }
                    },
                    None => Err(ArchiveError::UnknownFormat(string_of(ps))),
                },
            }
        },
        None => Err(ArchiveError::UnknownFormat(string_of(ps))),
    }
}

} // verus!
