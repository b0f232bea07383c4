//! Decisions shared by the extractors: streaming limits, entry filters,
//! output names of single compressed files, password errors, ZIP entry names,
//! and what to do with each entry of a 7z, TAR or ZIP archive.

use vstd::prelude::*;
use vstd::utf8::{decode_utf8, valid_utf8};
use crate::error::ArchiveError;
use crate::paths::{file_name, file_name_of, lemma_file_name_in_dir, lemma_single_name, slashes, to_slashes};
use crate::safety::{refusal_error, sanitize_entry_path, sanitize_spec, DEFAULT_MAX_PATH_LEN};
use crate::text::{
    chars_eq, chars_of, contains, contains_str, ends_with, ends_with_str, lower_chars, lower_seq,
    push_str, slice_chars, starts_with, starts_with_chars, string_of, views,
};
use crate::types::{ArchiveFormat, ExtractLimits};

verus! {

/// Size of the buffer of a streaming copy: 256 KiB, whatever the file size.
pub const COPY_BUF: usize = 262144;

// ---------------------------------------------------------------------------
// Streaming limits
// ---------------------------------------------------------------------------

/// Before copying an entry whose size is known (non-zero), that size must fit
/// the per-file limit.
pub fn check_declared_size(entry_total: u64, limits: &ExtractLimits) -> (r: Result<(), ArchiveError>)
    ensures
        (entry_total == 0 || entry_total <= limits.max_file_bytes) ==> r is Ok,
        (entry_total > 0 && entry_total > limits.max_file_bytes) ==> r == Err::<(), ArchiveError>(
            ArchiveError::FileTooLarge { actual: entry_total, max: limits.max_file_bytes },
        ),
{
    if entry_total > 0 {
        limits.check_file_size(entry_total)
    } else {
        Ok(())
    }
}

/// `n` capped at `u64::MAX`: a count that would not fit is reported as the
/// largest one that does.
pub open spec fn saturate_u64(n: int) -> u64 {
    if n > u64::MAX {
        u64::MAX
    } else {
        n as u64
    }
}

/// The outcome of accounting for a chunk (see [`copy_chunk`]).
pub open spec fn chunk_outcome(bytes_before: u64, written: u64, read: usize, limits: ExtractLimits) -> Result<u64, ArchiveError> {
    if written + read > limits.max_file_bytes {
        Err(ArchiveError::FileTooLarge { actual: saturate_u64(written + read), max: limits.max_file_bytes })
    } else if bytes_before + written + read > limits.max_total_bytes {
        Err(ArchiveError::BombDetected {
            current: saturate_u64(bytes_before + written + read),
            max: limits.max_total_bytes,
        })
    } else {
        Ok((written + read) as u64)
    }
}

/// Accounts for one chunk of `read` bytes of an entry of which `written`
/// bytes were copied before, in a task that had produced `bytes_before`
/// bytes before the entry. Returns the new count of the entry, or the limit
/// that the chunk breaks: the per-file limit first, then the total (a count
/// beyond `u64::MAX` breaks them too, and is reported as `u64::MAX`).
pub fn copy_chunk(bytes_before: u64, written: u64, read: usize, limits: &ExtractLimits) -> (r: Result<
    u64,
    ArchiveError,
>)
    ensures
        written + read > limits.max_file_bytes ==> r == Err::<u64, ArchiveError>(
            ArchiveError::FileTooLarge { actual: saturate_u64(written + read), max: limits.max_file_bytes },
        ),
        written + read <= limits.max_file_bytes && bytes_before + written + read
            > limits.max_total_bytes ==> r == Err::<u64, ArchiveError>(
            ArchiveError::BombDetected {
                current: saturate_u64(bytes_before + written + read),
                max: limits.max_total_bytes,
            },
        ),
        written + read <= limits.max_file_bytes && bytes_before + written + read
            <= limits.max_total_bytes ==> r == Ok::<u64, ArchiveError>((written + read) as u64),
        r matches Ok(n) ==> n <= limits.max_file_bytes && bytes_before + n <= limits.max_total_bytes,
        r == chunk_outcome(bytes_before, written, read, *limits),
{
    let n = match written.checked_add(read as u64) {
        Some(n) => n,
        None => {
            return Err(ArchiveError::FileTooLarge { actual: u64::MAX, max: limits.max_file_bytes });
        },
    };
    if n > limits.max_file_bytes {
        return Err(ArchiveError::FileTooLarge { actual: n, max: limits.max_file_bytes });
    }
    match bytes_before.checked_add(n) {
        None => Err(ArchiveError::BombDetected { current: u64::MAX, max: limits.max_total_bytes }),
        Some(total) => {
            if total > limits.max_total_bytes {
                Err(ArchiveError::BombDetected { current: total, max: limits.max_total_bytes })
            } else {
                Ok(n)
            }
        },
    }
}

/// A single compressed stream that expands by more than the ratio limit
/// (uncompressed / compressed, when the compressed size is known) is a
/// decompression bomb.
pub open spec fn ratio_exceeded(bytes: u64, compressed: u64, max_ratio: u64) -> bool {
    compressed != 0 && bytes / compressed > max_ratio
}

/// The check made before committing the output of a single compressed file.
pub fn check_ratio(bytes: u64, compressed: u64, limits: &ExtractLimits) -> (r: Result<(), ArchiveError>)
    ensures
        !ratio_exceeded(bytes, compressed, limits.max_ratio) ==> r is Ok,
        ratio_exceeded(bytes, compressed, limits.max_ratio) ==> r == Err::<(), ArchiveError>(
            ArchiveError::BombDetected { current: bytes, max: limits.max_total_bytes },
        ),
{
    match bytes.checked_div(compressed) {
        Some(ratio) => {
            if ratio > limits.max_ratio {
                Err(ArchiveError::BombDetected { current: bytes, max: limits.max_total_bytes })
            } else {
                Ok(())
            }
        },
        None => Ok(()),
    }
}

/// Before a RAR entry is moved out of the isolation directory: the entry must
/// fit the per-file limit and the running total the total limit.
pub fn check_commit(bytes_done: u64, unpacked: u64, limits: &ExtractLimits) -> (r: Result<(), ArchiveError>)
    requires
        bytes_done + unpacked <= u64::MAX,
    ensures
        unpacked > limits.max_file_bytes ==> r == Err::<(), ArchiveError>(
            ArchiveError::FileTooLarge { actual: unpacked, max: limits.max_file_bytes },
        ),
        unpacked <= limits.max_file_bytes && bytes_done + unpacked > limits.max_total_bytes ==> r
            == Err::<(), ArchiveError>(
            ArchiveError::BombDetected {
                current: (bytes_done + unpacked) as u64,
                max: limits.max_total_bytes,
            },
        ),
        unpacked <= limits.max_file_bytes && bytes_done + unpacked <= limits.max_total_bytes ==> r
            is Ok,
{
    limits.check_file_size(unpacked)?;
    if bytes_done + unpacked > limits.max_total_bytes {
        return Err(
            ArchiveError::BombDetected { current: bytes_done + unpacked, max: limits.max_total_bytes },
        );
    }
    Ok(())
}

// ---------------------------------------------------------------------------
// Output name of a single compressed file
// ---------------------------------------------------------------------------

/// The compression extensions that are stripped, in the order tried.
pub open spec fn strip_list() -> Seq<Seq<char>> {
    seq![
        ".tar.gz"@,
        ".tar.bz2"@,
        ".tar.xz"@,
        ".tar.zst"@,
        ".gzip"@,
        ".zstd"@,
        ".gz"@,
        ".bz2"@,
        ".xz"@,
        ".zst"@,
    ]
}

/// The first extension of `list` from index `k` that ends `lower`.
pub open spec fn first_strip(lower: Seq<char>, list: Seq<Seq<char>>, k: int) -> Option<Seq<char>>
    decreases list.len() - k,
{
    if k < 0 || k >= list.len() {
        None
    } else if ends_with(lower, list[k]) {
        Some(list[k])
    } else {
        first_strip(lower, list, k + 1)
    }
}

/// Output name of a single compressed file: its name without the first
/// matching compression extension (compared case-insensitively), or the name
/// with `.out` appended; `output` when the path has no file name.
pub open spec fn strip_spec(path: Seq<char>) -> Seq<char> {
    let name = match file_name(path) {
        Some(n) => n,
        None => "output"@,
    };
    match first_strip(lower_seq(name), strip_list(), 0) {
        Some(e) => name.take(name.len() - e.len()),
        None => name + ".out"@,
    }
}

/// `l + ext` ends with `e` only if `ext` and `e` agree `k` characters from
/// their ends.
proof fn lemma_suffix_char(l: Seq<char>, ext: Seq<char>, e: Seq<char>, k: int)
    requires
        1 <= k <= ext.len(),
        k <= e.len(),
        ext[ext.len() - k] != e[e.len() - k],
    ensures
        !ends_with(l + ext, e),
{
    let s = l + ext;
    if ends_with(s, e) {
        let i = s.len() - e.len();
        assert(s.subrange(i, i + e.len())[e.len() - k] == s[s.len() - k]);
        assert(s[s.len() - k] == ext[ext.len() - k]);
    }
}

/// `l + ext` ends with `.tar` + `ext` only if `l` ends with `.tar`.
proof fn lemma_tar_before(l: Seq<char>, ext: Seq<char>)
    requires
        ends_with(l + ext, ".tar"@ + ext),
    ensures
        ends_with(l, ".tar"@),
{
    reveal_strlit(".tar");
    let s = l + ext;
    let t = ".tar"@ + ext;
    let i = s.len() - t.len();
    assert(s.subrange(i, i + t.len()) == t);
    assert forall|j: int| 0 <= j < 4 implies l[l.len() - 4 + j] == ".tar"@[j] by {
        assert(s.subrange(i, i + t.len())[j] == s[i + j]);
        assert(t[j] == ".tar"@[j]);
    }
    assert(l.subrange(l.len() - 4, l.len() as int) =~= ".tar"@);
}

/// The output name of a single compressed file is its name without the
/// compression extension: for a name `n` without `/` and an extension
/// among `.gz`, `.gzip`, `.bz2`, `.xz`, `.zst`, `.zstd`, `.tar.gz`,
/// `.tar.bz2`, `.tar.xz`, `.tar.zst`, the file `n` + extension decompresses
/// to `n`, in whatever directory `dir` it lies (for `.gz`, `.bz2`, `.xz`
/// and `.zst`, when `n` itself does not end with `.tar`: `x.tar` + `.gz` is
/// a `.tar.gz`, which loses both).
pub proof fn lemma_strip_compression_ext(n: Seq<char>, ext: Seq<char>, dir: Seq<char>)
    requires
        forall|j: int| 0 <= j < n.len() ==> n[j] != '/',
        ext == ".gz"@ || ext == ".gzip"@ || ext == ".bz2"@ || ext == ".xz"@ || ext == ".zst"@ || ext
            == ".zstd"@ || ext == ".tar.gz"@ || ext == ".tar.bz2"@ || ext == ".tar.xz"@ || ext
            == ".tar.zst"@,
        (ext == ".gz"@ || ext == ".bz2"@ || ext == ".xz"@ || ext == ".zst"@) ==> !ends_with(
            lower_seq(n),
            ".tar"@,
        ),
    ensures
        strip_spec(n + ext) == n,
        strip_spec(dir + seq!['/'] + n + ext) == n,
{
    reveal_strlit(".gz");
    reveal_strlit(".gzip");
    reveal_strlit(".bz2");
    reveal_strlit(".xz");
    reveal_strlit(".zst");
    reveal_strlit(".zstd");
    reveal_strlit(".tar.gz");
    reveal_strlit(".tar.bz2");
    reveal_strlit(".tar.xz");
    reveal_strlit(".tar.zst");
    reveal_strlit(".tar");
    let name = n + ext;
    assert forall|j: int| 0 <= j < name.len() implies name[j] != '/' by {
        if j >= n.len() {
            assert(name[j] == ext[j - n.len()]);
        }
    }
    assert(name.len() >= 3);
    lemma_single_name(name);
    lemma_file_name_in_dir(dir, name);
    assert(dir + seq!['/'] + n + ext =~= dir + seq!['/'] + name);
    let l = lower_seq(n);
    let low = lower_seq(name);
    assert(low =~= l + ext);
    assert(low.subrange(low.len() - ext.len(), low.len() as int) =~= ext);
    assert(ends_with(low, ext));
    let list = strip_list();
    let tgz = ".tar.gz"@;
    let tbz = ".tar.bz2"@;
    let txz = ".tar.xz"@;
    let tzs = ".tar.zst"@;
    let gzip = ".gzip"@;
    let zstd = ".zstd"@;
    let gz = ".gz"@;
    let bz2 = ".bz2"@;
    let xz = ".xz"@;
    if ext == tbz {
        lemma_suffix_char(l, ext, tgz, 1);
    } else if ext == txz {
        assert(ext[ext.len() - 2] == 'x' && tgz[tgz.len() - 2] == 'g');
        lemma_suffix_char(l, ext, tgz, 2);
        lemma_suffix_char(l, ext, tbz, 1);
    } else if ext == tzs {
        lemma_suffix_char(l, ext, tgz, 1);
        lemma_suffix_char(l, ext, tbz, 1);
        lemma_suffix_char(l, ext, txz, 1);
    } else if ext == gzip {
        lemma_suffix_char(l, ext, tgz, 1);
        lemma_suffix_char(l, ext, tbz, 1);
        lemma_suffix_char(l, ext, txz, 1);
        lemma_suffix_char(l, ext, tzs, 1);
    } else if ext == zstd {
        lemma_suffix_char(l, ext, tgz, 1);
        lemma_suffix_char(l, ext, tbz, 1);
        lemma_suffix_char(l, ext, txz, 1);
        lemma_suffix_char(l, ext, tzs, 1);
        lemma_suffix_char(l, ext, gzip, 1);
    } else if ext == gz {
        if ends_with(l + ext, tgz) {
            assert(tgz =~= ".tar"@ + ext);
            lemma_tar_before(l, ext);
        }
        lemma_suffix_char(l, ext, tbz, 1);
        lemma_suffix_char(l, ext, txz, 2);
        lemma_suffix_char(l, ext, tzs, 1);
        lemma_suffix_char(l, ext, gzip, 1);
        lemma_suffix_char(l, ext, zstd, 1);
    } else if ext == bz2 {
        lemma_suffix_char(l, ext, tgz, 1);
        if ends_with(l + ext, tbz) {
            assert(tbz =~= ".tar"@ + ext);
            lemma_tar_before(l, ext);
        }
        lemma_suffix_char(l, ext, txz, 1);
        lemma_suffix_char(l, ext, tzs, 1);
        lemma_suffix_char(l, ext, gzip, 1);
        lemma_suffix_char(l, ext, zstd, 1);
        lemma_suffix_char(l, ext, gz, 1);
    } else if ext == xz {
        lemma_suffix_char(l, ext, tgz, 2);
        lemma_suffix_char(l, ext, tbz, 1);
        if ends_with(l + ext, txz) {
            assert(txz =~= ".tar"@ + ext);
            lemma_tar_before(l, ext);
        }
        lemma_suffix_char(l, ext, tzs, 1);
        lemma_suffix_char(l, ext, gzip, 1);
        lemma_suffix_char(l, ext, zstd, 1);
        lemma_suffix_char(l, ext, gz, 2);
        lemma_suffix_char(l, ext, bz2, 1);
    } else if ext == ".zst"@ {
        lemma_suffix_char(l, ext, tgz, 1);
        lemma_suffix_char(l, ext, tbz, 1);
        lemma_suffix_char(l, ext, txz, 1);
        if ends_with(l + ext, tzs) {
            assert(tzs =~= ".tar"@ + ext);
            lemma_tar_before(l, ext);
        }
        lemma_suffix_char(l, ext, gzip, 1);
        lemma_suffix_char(l, ext, zstd, 1);
        lemma_suffix_char(l, ext, gz, 1);
        lemma_suffix_char(l, ext, bz2, 1);
        lemma_suffix_char(l, ext, xz, 1);
    }
    reveal_with_fuel(first_strip, 11);
    assert(first_strip(low, list, 0) == Some(ext));
    assert(name.take(name.len() - ext.len()) =~= n);
}

/// See [`strip_spec`].
pub fn strip_compound_ext(path: &str) -> (r: String)
    ensures
        r@ == strip_spec(path@),
{
    let p = chars_of(path);
    let name = match file_name_of(p.as_slice()) {
        Some(n) => n,
        None => chars_of("output"),
    };
    let lower = lower_chars(name.as_slice());
    let list: [&str; 10] = [
        ".tar.gz", ".tar.bz2", ".tar.xz", ".tar.zst", ".gzip", ".zstd", ".gz", ".bz2", ".xz",
        ".zst",
    ];
    let ghost gl = Seq::new(10, |i: int| list@[i]@);
    assert(gl =~= strip_list());
    let mut k: usize = 0;
    while k < 10
        invariant
            k <= 10,
            gl == strip_list(),
            forall|i: int| 0 <= i < 10 ==> #[trigger] gl[i] == list@[i]@,
            first_strip(lower@, gl, 0) == first_strip(lower@, gl, k as int),
            lower@ == lower_seq(name@),
            name@ == (match file_name(path@) {
                Some(n) => n,
                None => "output"@,
            }),
        decreases 10 - k,
    {
        let e = chars_of(list[k]);
        if ends_with_str(lower.as_slice(), list[k]) {
            assert(gl[k as int] == e@);
            let out = slice_chars(name.as_slice(), 0, name.len() - e.len());
            assert(out@ =~= name@.take(name@.len() - e@.len()));
            return string_of(out.as_slice());
        }
        k += 1;
    }
    let mut v = name;
    push_str(&mut v, ".out");
    string_of(v.as_slice())
}

// ---------------------------------------------------------------------------
// Entry filters of partial extraction
// ---------------------------------------------------------------------------

/// `s` without its leading `/` characters.
pub open spec fn strip_leading(s: Seq<char>) -> Seq<char>
    decreases s.len(),
{
    if s.len() > 0 && s[0] == '/' {
        strip_leading(s.drop_first())
    } else {
        s
    }
}

/// `s` without its trailing `/` characters (`trim_end_matches('/')`).
pub open spec fn strip_trailing(s: Seq<char>) -> Seq<char>
    decreases s.len(),
{
    if s.len() > 0 && s.last() == '/' {
        strip_trailing(s.drop_last())
    } else {
        s
    }
}

/// A filter path of ZIP partial extraction: `/` separators, no leading `/`.
pub open spec fn normalize_spec(s: Seq<char>) -> Seq<char> {
    strip_leading(to_slashes(s))
}

/// Normalises a filter path (see [`normalize_spec`]).
pub fn normalize_filter(s: &str) -> (r: String)
    ensures
        r@ == normalize_spec(s@),
{
    let c = chars_of(s);
    let n = slashes(c.as_slice());
    let mut i: usize = 0;
    assert(n@.skip(0) =~= n@);
    while i < n.len() && n[i] == '/'
        invariant
            i <= n@.len(),
            strip_leading(n@) == strip_leading(n@.skip(i as int)),
        decreases n@.len() - i,
    {
        assert(n@.skip(i as int).drop_first() =~= n@.skip(i + 1));
        i += 1;
    }
    let out = slice_chars(n.as_slice(), i, n.len());
    assert(out@ =~= n@.skip(i as int));
    string_of(out.as_slice())
}

fn strip_trailing_chars(s: &[char]) -> (r: Vec<char>)
    ensures
        r@ == strip_trailing(s@),
{
    let mut end: usize = s.len();
    assert(s@.take(s@.len() as int) =~= s@);
    while end > 0 && s[end - 1] == '/'
        invariant
            end <= s@.len(),
            strip_trailing(s@) == strip_trailing(s@.take(end as int)),
        decreases end,
    {
        assert(s@.take(end as int).drop_last() =~= s@.take(end - 1));
        end -= 1;
    }
    slice_chars(s, 0, end)
}

/// ZIP partial extraction wants `name` (with `\` read as `/`) when the filter
/// is empty, holds it, or holds a directory `f` above it: `name` continues
/// `f` without its trailing `/` with a `/`.
pub open spec fn zip_wants(filter: Seq<Seq<char>>, name: Seq<char>) -> bool {
    let norm = to_slashes(name);
    filter.len() == 0 || filter.contains(norm) || exists|i: int|
        0 <= i < filter.len() && zip_dir_match(#[trigger] filter[i], norm)
}

/// `norm` lies under the filter directory `f`: the character right after
/// `f` without its trailing `/` is a `/`.
pub open spec fn zip_dir_match(f: Seq<char>, norm: Seq<char>) -> bool {
    let base = strip_trailing(f);
    starts_with(norm, base) && norm.len() > base.len() && norm[base.len() as int] == '/'
}

/// 7z partial extraction wants `name` (with `\` read as `/`) when the filter
/// is empty, holds it, or holds `f` such that `name` continues `f` without
/// its trailing `/` with a `/`.
pub open spec fn sevenz_wants(filter: Seq<Seq<char>>, name: Seq<char>) -> bool {
    let norm = to_slashes(name);
    filter.len() == 0 || filter.contains(norm) || exists|i: int|
        0 <= i < filter.len() && sevenz_dir_match(#[trigger] filter[i], norm)
}

/// `norm` lies under the filter directory `f` (7z rule).
pub open spec fn sevenz_dir_match(f: Seq<char>, norm: Seq<char>) -> bool {
    let base = strip_trailing(f);
    starts_with(norm, base) && norm.len() > base.len() && norm[base.len() as int] == '/'
}

fn zip_dir_match_exec(f: &[char], norm: &[char]) -> (r: bool)
    ensures
        r == zip_dir_match(f@, norm@),
{
    let base = strip_trailing_chars(f);
    starts_with_chars(norm, base.as_slice()) && norm.len() > base.len() && norm[base.len()] == '/'
}

fn sevenz_dir_match_exec(f: &[char], norm: &[char]) -> (r: bool)
    ensures
        r == sevenz_dir_match(f@, norm@),
{
    let base = strip_trailing_chars(f);
    starts_with_chars(norm, base.as_slice()) && norm.len() > base.len() && norm[base.len()] == '/'
}

/// Whether ZIP partial extraction with the (normalised) filter `filter` wants
/// the entry `name`.
pub fn zip_entry_wanted(filter: &[String], name: &str) -> (r: bool)
    ensures
        r == zip_wants(views(filter@), name@),
{
    let c = chars_of(name);
    let norm = slashes(c.as_slice());
    let ghost fv = views(filter@);
    if filter.len() == 0 {
        return true;
    }
    let mut i: usize = 0;
    while i < filter.len()
        invariant
            i <= filter.len(),
            fv == views(filter@),
            norm@ == to_slashes(name@),
            forall|j: int| 0 <= j < i ==> fv[j] != norm@ && !zip_dir_match(#[trigger] fv[j], norm@),
        decreases filter.len() - i,
    {
        let f = chars_of(filter[i].as_str());
        if chars_eq(f.as_slice(), norm.as_slice()) {
            assert(fv[i as int] == norm@);
            return true;
        }
        if zip_dir_match_exec(f.as_slice(), norm.as_slice()) {
            assert(zip_dir_match(fv[i as int], norm@));
            return true;
        }
        i += 1;
    }
    assert(!fv.contains(norm@));
    false
}

/// Whether 7z partial extraction with the filter `filter` (separators already
/// `/`) wants the entry `name`.
pub fn sevenz_entry_wanted(filter: &[String], name: &str) -> (r: bool)
    ensures
        r == sevenz_wants(views(filter@), name@),
{
    let c = chars_of(name);
    let norm = slashes(c.as_slice());
    let ghost fv = views(filter@);
    if filter.len() == 0 {
        return true;
    }
    let mut i: usize = 0;
    while i < filter.len()
        invariant
            i <= filter.len(),
            fv == views(filter@),
            norm@ == to_slashes(name@),
            forall|j: int|
                0 <= j < i ==> fv[j] != norm@ && !sevenz_dir_match(#[trigger] fv[j], norm@),
        decreases filter.len() - i,
    {
        let f = chars_of(filter[i].as_str());
        if chars_eq(f.as_slice(), norm.as_slice()) {
            assert(fv[i as int] == norm@);
            return true;
        }
        if sevenz_dir_match_exec(f.as_slice(), norm.as_slice()) {
            assert(sevenz_dir_match(fv[i as int], norm@));
            return true;
        }
        i += 1;
    }
    assert(!fv.contains(norm@));
    false
}

/// The filter of ZIP partial extraction: each requested path normalised.
pub fn zip_filter(entries: &[String]) -> (r: Vec<String>)
    ensures
        r@.len() == entries@.len(),
        forall|i: int| 0 <= i < r@.len() ==> (#[trigger] r@[i])@ == normalize_spec(entries@[i]@),
{
    let mut out: Vec<String> = Vec::new();
    let mut i: usize = 0;
    while i < entries.len()
        invariant
            i <= entries.len(),
            out@.len() == i,
            forall|j: int| 0 <= j < i ==> (#[trigger] out@[j])@ == normalize_spec(entries@[j]@),
        decreases entries.len() - i,
    {
        out.push(normalize_filter(entries[i].as_str()));
        i += 1;
    }
    out
}

/// The filter of 7z partial extraction: each requested path with `\` read
/// as `/`.
pub fn sevenz_filter(entries: &[String]) -> (r: Vec<String>)
    ensures
        r@.len() == entries@.len(),
        forall|i: int| 0 <= i < r@.len() ==> (#[trigger] r@[i])@ == to_slashes(entries@[i]@),
{
    let mut out: Vec<String> = Vec::new();
    let mut i: usize = 0;
    while i < entries.len()
        invariant
            i <= entries.len(),
            out@.len() == i,
            forall|j: int| 0 <= j < i ==> (#[trigger] out@[j])@ == to_slashes(entries@[j]@),
        decreases entries.len() - i,
    {
        let c = chars_of(entries[i].as_str());
        let n = slashes(c.as_slice());
        out.push(string_of(n.as_slice()));
        i += 1;
    }
    out
}

// ---------------------------------------------------------------------------
// Passwords
// ---------------------------------------------------------------------------

/// How a failure to read the header of a 7z archive is reported: a message
/// that speaks of a password or encryption means a password is needed;
/// anything else is damage.
pub fn header_read_error(message: &str) -> (r: ArchiveError)
    ensures
        mentions_password(message@) ==> r == ArchiveError::PasswordRequired,
        !mentions_password(message@) ==> (r matches ArchiveError::Corrupt(m) && m@
            == "读取 7z 头部失败: "@ + message@),
{
    if looks_like_password_error(message) {
        ArchiveError::PasswordRequired
    } else {
        let mut v: Vec<char> = Vec::new();
        push_str(&mut v, "读取 7z 头部失败: ");
        push_str(&mut v, message);
        ArchiveError::Corrupt(string_of(v.as_slice()))
    }
}

/// The method id of AES-256 encryption in a 7z coder chain.
pub open spec fn aes_method_id() -> Seq<u8> {
    seq![0x06u8, 0xf1, 0x07, 0x01]
}

/// Whether a 7z archive is encrypted, from the method ids of all the coders
/// of all its blocks: some coder is AES-256.
pub fn uses_aes(method_ids: &[Vec<u8>]) -> (r: bool)
    ensures
        r == exists|i: int| 0 <= i < method_ids@.len() && (#[trigger] method_ids@[i])@ == aes_method_id(),
{
    let aes: Vec<u8> = vec![0x06u8, 0xf1, 0x07, 0x01];
    assert(aes@ =~= aes_method_id());
    let mut i: usize = 0;
    while i < method_ids.len()
        invariant
            i <= method_ids@.len(),
            aes@ == aes_method_id(),
            forall|j: int| 0 <= j < i ==> (#[trigger] method_ids@[j])@ != aes_method_id(),
        decreases method_ids@.len() - i,
    {
        let id = &method_ids[i];
        let mut same = id.len() == aes.len();
        let mut k: usize = 0;
        while same && k < aes.len()
            invariant
                k <= aes@.len(),
                same ==> id@.len() == aes@.len(),
                same ==> forall|m: int| 0 <= m < k ==> id@[m] == aes@[m],
                !same ==> id@ != aes@,
            decreases aes@.len() - k,
        {
            if id[k] != aes[k] {
                same = false;
            }
            k += 1;
        }
        if same {
            assert(id@ =~= aes@);
            return true;
        }
        i += 1;
    }
    false
}

/// A library message that speaks of a password or of encryption.
pub open spec fn mentions_password(message: Seq<char>) -> bool {
    let l = lower_seq(message);
    contains(l, "password"@) || contains(l, "encrypt"@)
}

/// Whether an error message of a decoding library speaks of a password or of
/// encryption (compared case-insensitively).
pub fn looks_like_password_error(message: &str) -> (r: bool)
    ensures
        r == mentions_password(message@),
{
    let c = chars_of(message);
    let l = lower_chars(c.as_slice());
    contains_str(l.as_slice(), "password") || contains_str(l.as_slice(), "encrypt")
}

/// The error for an archive that refused to open an encrypted entry: a wrong
/// password when one was given, else a missing password.
pub fn password_error(has_password: bool) -> (r: ArchiveError)
    ensures
        has_password ==> r == ArchiveError::WrongPassword,
        !has_password ==> r == ArchiveError::PasswordRequired,
{
    if has_password {
        ArchiveError::WrongPassword
    } else {
        ArchiveError::PasswordRequired
    }
}

/// How ZIP extraction reads a failure to open an entry: a password failure
/// (the library's own, or a message that speaks of a password) becomes
/// [`password_error`]; any other failure is passed on (`None`).
pub fn zip_open_error(invalid_password: bool, message: &str, has_password: bool) -> (r: Option<
    ArchiveError,
>)
    ensures
        (invalid_password || contains(lower_seq(message@), "password"@)) ==> r == Some(
            if has_password {
                ArchiveError::WrongPassword
            } else {
                ArchiveError::PasswordRequired
            },
        ),
        !(invalid_password || contains(lower_seq(message@), "password"@)) ==> r is None,
{
    if invalid_password {
        return Some(password_error(has_password));
    }
    let c = chars_of(message);
    let l = lower_chars(c.as_slice());
    if contains_str(l.as_slice(), "password") {
        Some(password_error(has_password))
    } else {
        None
    }
}

// ---------------------------------------------------------------------------
// ZIP entry names
// ---------------------------------------------------------------------------

/// The decoding of `bytes` as GBK by `encoding_rs` (with its BOM sniffing,
/// malformed sequences replaced).
pub uninterp spec fn gbk_decoding(bytes: Seq<u8>) -> Seq<char>;

/// `std::str::from_utf8`, owned: `Some` exactly for valid UTF-8, holding the
/// decoded characters.
#[verifier::external_body]
fn utf8_text(raw: &[u8]) -> (r: Option<String>)
    ensures
        r is Some <==> valid_utf8(raw@),
        r matches Some(s) ==> s@ == decode_utf8(raw@),
{
    std::str::from_utf8(raw).ok().map(|s| s.to_string())
}

/// `encoding_rs::GBK.decode`, owned: the GBK decoding of the bytes.
#[verifier::external_body]
fn gbk_text(raw: &[u8]) -> (r: String)
    ensures
        r@ == gbk_decoding(raw@),
{
    encoding_rs::GBK.decode(raw).0.into_owned()
}

/// The name of a ZIP entry from its raw bytes: UTF-8 when the bytes are valid
/// UTF-8, else GBK (common in Chinese ZIP files).
pub fn decode_zip_name(raw: &[u8]) -> (r: String)
    ensures
        valid_utf8(raw@) ==> r@ == decode_utf8(raw@),
        !valid_utf8(raw@) ==> r@ == gbk_decoding(raw@),
{
    match utf8_text(raw) {
        Some(s) => s,
        None => gbk_text(raw),
    }
}

// ---------------------------------------------------------------------------
// Per-entry decisions
// ---------------------------------------------------------------------------

/// What TAR extraction does with an entry.
#[derive(Debug, Clone, Copy, PartialEq, Eq, Structural)]
pub enum TarEntryAction {
    /// Create the directory.
    Directory,
    /// Write the regular file.
    File,
    /// Skip it: links, FIFOs and devices are never created.
    Skip,
}

/// Only directories and regular files are extracted from a TAR archive.
pub fn tar_entry_action(is_dir: bool, is_file: bool) -> (r: TarEntryAction)
    ensures
        is_dir ==> r == TarEntryAction::Directory,
        !is_dir && is_file ==> r == TarEntryAction::File,
        !is_dir && !is_file ==> r == TarEntryAction::Skip,
{
    if is_dir {
        TarEntryAction::Directory
    } else if is_file {
        TarEntryAction::File
    } else {
        TarEntryAction::Skip
    }
}

/// What ZIP extraction does with an entry.
#[derive(Debug, Clone, Copy, PartialEq, Eq, Structural)]
pub enum ZipEntryAction {
    /// Not selected by the filter: passed over without a trace.
    NotWanted,
    /// Create the directory.
    Directory,
    /// Write the file.
    File,
}

/// Filter first, then directories, then files.
pub fn zip_entry_action(filter: &[String], name: &str, is_dir: bool) -> (r: ZipEntryAction)
    ensures
        !zip_wants(views(filter@), name@) ==> r == ZipEntryAction::NotWanted,
        zip_wants(views(filter@), name@) && is_dir ==> r == ZipEntryAction::Directory,
        zip_wants(views(filter@), name@) && !is_dir ==> r == ZipEntryAction::File,
{
    if !zip_entry_wanted(filter, name) {
        ZipEntryAction::NotWanted
    } else if is_dir {
        ZipEntryAction::Directory
    } else {
        ZipEntryAction::File
    }
}

/// What 7z extraction does with an entry.
#[derive(Debug, Clone, PartialEq, Eq)]
pub enum SevenZAction {
    /// Cancellation was requested: stop, and report a cancelled summary.
    Cancel,
    /// Not selected by the filter: consume its data and go on.
    NotWanted,
    /// Stop with this error: too many entries, or a refused entry path.
    Abort(ArchiveError),
    /// Consume its data and count it as skipped (anti-items, links and
    /// devices: entries without a data stream).
    DrainSkip,
    /// Create an empty regular file.
    CreateEmpty,
    /// Create the directory.
    Directory,
    /// Write the file.
    File,
}

/// The decision for one 7z entry. `seen` counts the entries met so far,
/// this one included.
///
/// Cancellation is checked first, then the filter, then the entry count; an
/// entry without a data stream is an anti-item (skipped), an empty file, or
/// a link or device (skipped); an entry whose path is refused stops the
/// extraction with the refusal; then directories and files.
pub fn sevenz_entry_action(
    cancelled: bool,
    seen: usize,
    filter: &[String],
    name: &str,
    is_dir: bool,
    has_stream: bool,
    is_anti: bool,
    size: u64,
    limits: &ExtractLimits,
) -> (r: SevenZAction)
    ensures
        sevenz_action_spec(cancelled, seen, views(filter@), name@, is_dir, has_stream, is_anti, size, *limits, r),
{
    if cancelled {
        return SevenZAction::Cancel;
    }
    if filter.len() > 0 && !sevenz_entry_wanted(filter, name) {
        return SevenZAction::NotWanted;
    }
    match limits.check_entries(seen) {
        Err(e) => {
            return SevenZAction::Abort(e);
        },
        Ok(()) => {},
    }
    if !is_dir && !has_stream {
        if is_anti {
            return SevenZAction::DrainSkip;
        }
        if size == 0 {
            return SevenZAction::CreateEmpty;
        }
        return SevenZAction::DrainSkip;
    }
    match sanitize_entry_path(name, "") {
        Err(e) => SevenZAction::Abort(e),
        Ok(_) => {
            if is_dir {
                SevenZAction::Directory
            } else {
                SevenZAction::File
            }
        },
    }
}

/// The decision of [`sevenz_entry_action`]: `r` is the action for the entry.
pub open spec fn sevenz_action_spec(
    cancelled: bool,
    seen: usize,
    filter: Seq<Seq<char>>,
    name: Seq<char>,
    is_dir: bool,
    has_stream: bool,
    is_anti: bool,
    size: u64,
    limits: ExtractLimits,
    r: SevenZAction,
) -> bool {
    if cancelled {
        r == SevenZAction::Cancel
    } else if filter.len() > 0 && !sevenz_wants(filter, name) {
        r == SevenZAction::NotWanted
    } else if seen > limits.max_entries {
        r == SevenZAction::Abort(ArchiveError::TooManyEntries { actual: seen, max: limits.max_entries })
    } else if !is_dir && !has_stream {
        if is_anti {
            r == SevenZAction::DrainSkip
        } else if size == 0 {
            r == SevenZAction::CreateEmpty
        } else {
            r == SevenZAction::DrainSkip
        }
    } else {
        match sanitize_spec(name, DEFAULT_MAX_PATH_LEN) {
            Err(f) => r matches SevenZAction::Abort(e) && refusal_error(name, DEFAULT_MAX_PATH_LEN, f, e),
            Ok(_) => if is_dir {
                r == SevenZAction::Directory
            } else {
                r == SevenZAction::File
            },
        }
    }
}

} // verus!
