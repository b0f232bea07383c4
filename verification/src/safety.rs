//! Entry-path safety: every path taken from an archive is checked here before
//! anything is written, so that no entry can leave the destination directory
//! (Zip Slip) or use a name that Windows reserves.

use vstd::prelude::*;
use crate::error::ArchiveError;
use crate::paths::{
    components, components_of, dot, dot_dot, is_skipped, join_parts, keep_parts, lemma_join_len,
    lemma_single_name,
    lemma_keep_all, lemma_keep_not_skipped, lemma_split_join, slashes, split_extension, split_on,
    stem_and_extension, to_slashes, last_dot, last_dot_upto,
};
use crate::text::{
    chars_eq, chars_of, concat_chars, decimal, decimal_chars, lemma_decimal_digits, lemma_rfind_upto,
    push_str, rfind,
    rfind_upto,
    rfind_chars,
    slice_chars, starts_with, string_of, upper_chars, upper_seq, utf8_len, utf8_len_chars,
};
use crate::types::OverwritePolicy;

verus! {

/// Default upper bound on the byte length of a sanitised path.
pub const DEFAULT_MAX_PATH_LEN: usize = 4096;

/// Characters that a Windows file name cannot hold.
pub open spec fn is_illegal_char(c: char) -> bool {
    c == '<' || c == '>' || c == ':' || c == '"' || c == '|' || c == '?' || c == '*'
}

/// A control character.
pub open spec fn is_control_char(c: char) -> bool {
    (c as u32) < 0x20
}

/// The part of a name before its first `.` (`name.split('.').next()`).
pub open spec fn stem_of(name: Seq<char>) -> Seq<char> {
    split_on(name, '.')[0]
}

/// Device names that Windows reserves.
pub open spec fn is_reserved_stem(s: Seq<char>) -> bool {
    s == "CON"@ || s == "PRN"@ || s == "AUX"@ || s == "NUL"@ || s == "COM1"@ || s == "COM2"@
        || s == "COM3"@ || s == "COM4"@ || s == "COM5"@ || s == "COM6"@ || s == "COM7"@ || s
        == "COM8"@ || s == "COM9"@ || s == "LPT1"@ || s == "LPT2"@ || s == "LPT3"@ || s
        == "LPT4"@ || s == "LPT5"@ || s == "LPT6"@ || s == "LPT7"@ || s == "LPT8"@ || s
        == "LPT9"@
}

/// Why a single file name is refused, as a message, or `None` when it is fine.
pub open spec fn name_rejection(name: Seq<char>) -> Option<Seq<char>> {
    if is_reserved_stem(upper_seq(stem_of(name))) {
        Some("拒绝 Windows 保留名: "@ + name)
    } else if exists|i: int| 0 <= i < name.len() && is_illegal_char(#[trigger] name[i]) {
        Some("拒绝含非法字符的文件名: "@ + name)
    } else if exists|i: int| 0 <= i < name.len() && is_control_char(#[trigger] name[i]) {
        Some("拒绝含控制字符的文件名: "@ + name)
    } else if utf8_len(name) > 255 {
        Some("文件名过长: "@ + name)
    } else {
        None
    }
}

/// Why one component of `entry` is refused, or `None`.
pub open spec fn part_rejection(entry: Seq<char>, part: Seq<char>) -> Option<Seq<char>> {
    if part == dot_dot() {
        Some("拒绝包含 .. 的条目: "@ + entry)
    } else {
        name_rejection(part)
    }
}

/// The refusal of the first refused component, in order.
pub open spec fn first_rejection(entry: Seq<char>, parts: Seq<Seq<char>>) -> Option<Seq<char>>
    decreases parts.len(),
{
    if parts.len() == 0 {
        None
    } else {
        match first_rejection(entry, parts.drop_last()) {
            Some(m) => Some(m),
            None => part_rejection(entry, parts.last()),
        }
    }
}

/// How an entry path can be refused.
pub enum PathRefusal {
    /// Refused with this message.
    Message(Seq<char>),
    /// The sanitised path has this many bytes, more than the limit.
    TooLong(usize),
}

/// `n` capped at `usize::MAX`.
pub open spec fn clamp_usize(n: nat) -> usize {
    if n > usize::MAX {
        usize::MAX
    } else {
        n as usize
    }
}

/// The outcome of sanitising `entry` with a path-length limit of `max`.
///
/// `\` counts as a separator; an empty entry, an absolute one, any `..`
/// component and any name that Windows refuses are rejected, in that order;
/// the components (empty ones and `.` dropped) are joined with `/`.
pub open spec fn sanitize_spec(entry: Seq<char>, max: usize) -> Result<Seq<char>, PathRefusal> {
    let n = to_slashes(entry);
    let parts = components(n);
    if entry.len() == 0 {
        Err(PathRefusal::Message("空路径条目"@))
    } else if starts_with(n, seq!['/']) {
        Err(PathRefusal::Message("拒绝绝对路径条目: "@ + entry))
    } else if first_rejection(entry, parts) is Some {
        Err(PathRefusal::Message(first_rejection(entry, parts).unwrap()))
    } else if parts.len() == 0 {
        Err(PathRefusal::Message("空路径条目: "@ + entry))
    } else if clamp_usize(utf8_len(join_parts(parts))) > max {
        Err(PathRefusal::TooLong(clamp_usize(utf8_len(join_parts(parts)))))
    } else {
        Ok(join_parts(parts))
    }
}

/// The error value that stands for a refusal of `entry`.
pub open spec fn refusal_error(entry: Seq<char>, max: usize, f: PathRefusal, e: ArchiveError) -> bool {
    match f {
        PathRefusal::Message(m) => e matches ArchiveError::Rejected(s) && s@ == m,
        PathRefusal::TooLong(len) => e matches ArchiveError::PathTooLong { path, len: l, max: mx }
            && path@ == entry && l == len && mx == max,
    }
}

/// The result of an exec sanitisation agrees with [`sanitize_spec`].
pub open spec fn sanitize_result(entry: Seq<char>, max: usize, r: Result<String, ArchiveError>) -> bool {
    match sanitize_spec(entry, max) {
        Ok(p) => r matches Ok(s) && s@ == p,
        Err(f) => r matches Err(e) && refusal_error(entry, max, f, e),
    }
}

/// What every accepted path satisfies: it is relative, non-empty, within the
/// length limit (a byte length beyond `usize::MAX` counts as `usize::MAX`), made of `/`-separated components none of which is empty,
/// `.` or `..`, holds no `\`, and every name passes the Windows checks.
pub open spec fn is_safe_relative(p: Seq<char>, max: usize) -> bool {
    let parts = split_on(p, '/');
    &&& p.len() > 0
    &&& !starts_with(p, seq!['/'])
    &&& clamp_usize(utf8_len(p)) <= max
    &&& forall|i: int| 0 <= i < p.len() ==> p[i] != '\\'
    &&& forall|i: int| 0 <= i < parts.len() ==> !is_skipped(#[trigger] parts[i])
    &&& forall|i: int| 0 <= i < parts.len() ==> #[trigger] parts[i] != dot_dot()
    &&& forall|i: int| 0 <= i < parts.len() ==> name_rejection(#[trigger] parts[i]) is None
}

// ---------------------------------------------------------------------------
// Proofs
// ---------------------------------------------------------------------------

/// When no component is refused, each component individually passes.
proof fn lemma_no_rejection(entry: Seq<char>, parts: Seq<Seq<char>>)
    requires
        first_rejection(entry, parts) is None,
    ensures
        forall|i: int| 0 <= i < parts.len() ==> #[trigger] part_rejection(entry, parts[i]) is None,
    decreases parts.len(),
{
    if parts.len() > 0 {
        lemma_no_rejection(entry, parts.drop_last());
        assert forall|i: int| 0 <= i < parts.len() implies #[trigger] part_rejection(
            entry,
            parts[i],
        ) is None by {
            if i < parts.len() - 1 {
                assert(parts[i] == parts.drop_last()[i]);
            }
        }
    }
}

/// If every component passes, none is refused.
proof fn lemma_all_pass(entry: Seq<char>, parts: Seq<Seq<char>>)
    requires
        forall|i: int| 0 <= i < parts.len() ==> #[trigger] part_rejection(entry, parts[i]) is None,
    ensures
        first_rejection(entry, parts) is None,
    decreases parts.len(),
{
    if parts.len() > 0 {
        assert forall|i: int| 0 <= i < parts.drop_last().len() implies #[trigger] part_rejection(
            entry,
            parts.drop_last()[i],
        ) is None by {
            assert(parts.drop_last()[i] == parts[i]);
        }
        lemma_all_pass(entry, parts.drop_last());
        assert(part_rejection(entry, parts[parts.len() - 1]) is None);
    }
}

/// A component holds neither the separator nor a character absent from the
/// path.
proof fn lemma_components_plain(n: Seq<char>, c: char)
    requires
        c == '/' || forall|i: int| 0 <= i < n.len() ==> n[i] != c,
    ensures
        forall|i: int, j: int|
            0 <= i < components(n).len() && 0 <= j < components(n)[i].len() ==> #[trigger] components(
                n,
            )[i][j] != c,
{
    lemma_split_plain(n, c);
    lemma_keep_subset(split_on(n, '/'));
    let segs = split_on(n, '/');
    assert forall|i: int, j: int|
        0 <= i < components(n).len() && 0 <= j < components(n)[i].len() implies #[trigger] components(
        n,
    )[i][j] != c by {
        let k = choose|k: int| 0 <= k < segs.len() && segs[k] == keep_parts(segs)[i];
        assert(segs[k][j] == components(n)[i][j]);
    }
}

/// No piece of a split holds the separator, nor a character absent from the
/// whole.
proof fn lemma_split_plain(n: Seq<char>, c: char)
    requires
        c == '/' || forall|i: int| 0 <= i < n.len() ==> n[i] != c,
    ensures
        forall|i: int, j: int|
            0 <= i < split_on(n, '/').len() && 0 <= j < split_on(n, '/')[i].len() ==> #[trigger] split_on(
                n,
                '/',
            )[i][j] != c,
    decreases n.len(),
{
    if n.len() > 0 {
        assert(c == '/' || forall|i: int| 0 <= i < n.drop_last().len() ==> n.drop_last()[i] != c) by {
            if c != '/' {
                assert forall|i: int| 0 <= i < n.drop_last().len() implies n.drop_last()[i] != c by {
                    assert(n.drop_last()[i] == n[i]);
                }
            }
        }
        lemma_split_plain(n.drop_last(), c);
        crate::paths::lemma_split_nonempty(n.drop_last(), '/');
        let r = split_on(n.drop_last(), '/');
        if n.last() != '/' {
            let u = r.update(r.len() - 1, r.last().push(n.last()));
            assert forall|i: int, j: int| 0 <= i < u.len() && 0 <= j < u[i].len() implies #[trigger] u[i][j]
                != c by {
                if i == r.len() - 1 {
                    if j < r.last().len() {
                        assert(u[i][j] == r[i][j]);
                    }
                } else {
                    assert(u[i] == r[i]);
                }
            }
        } else {
            let u = r.push(Seq::<char>::empty());
            assert forall|i: int, j: int| 0 <= i < u.len() && 0 <= j < u[i].len() implies #[trigger] u[i][j]
                != c by {
                if i < r.len() {
                    assert(u[i] == r[i]);
                }
            }
        }
    }
}

/// Every kept component is one of the pieces.
proof fn lemma_keep_subset(segs: Seq<Seq<char>>)
    ensures
        forall|i: int|
            0 <= i < keep_parts(segs).len() ==> exists|k: int|
                0 <= k < segs.len() && segs[k] == #[trigger] keep_parts(segs)[i],
    decreases segs.len(),
{
    if segs.len() > 0 {
        lemma_keep_subset(segs.drop_last());
        let k = keep_parts(segs.drop_last());
        assert forall|i: int| 0 <= i < keep_parts(segs).len() implies exists|m: int|
            0 <= m < segs.len() && segs[m] == #[trigger] keep_parts(segs)[i] by {
            if i < k.len() {
                let m = choose|m: int| 0 <= m < segs.drop_last().len() && segs.drop_last()[m] == k[i];
                assert(segs[m] == segs.drop_last()[m]);
                assert(keep_parts(segs)[i] == k[i]);
            } else {
                assert(keep_parts(segs)[i] == segs[segs.len() - 1]);
            }
        }
    }
}

/// The shape of an accepted path: it is its own normal form, it splits back
/// into the components it was joined from, and it holds no `\`.
proof fn lemma_accepted_shape(entry: Seq<char>, max: usize)
    requires
        sanitize_spec(entry, max) is Ok,
    ensures
        ({
            let parts = components(to_slashes(entry));
            let p = join_parts(parts);
            &&& sanitize_spec(entry, max) == Ok::<Seq<char>, PathRefusal>(p)
            &&& to_slashes(p) == p
            &&& split_on(p, '/') == parts
            &&& components(p) == parts
            &&& p.len() > 0
            &&& !starts_with(p, seq!['/'])
            &&& forall|i: int| 0 <= i < p.len() ==> p[i] != '\\'
            &&& forall|i: int| 0 <= i < parts.len() ==> !is_skipped(#[trigger] parts[i])
            &&& forall|i: int| 0 <= i < parts.len() ==> #[trigger] part_rejection(entry, parts[i]) is None
        }),
{
    let n = to_slashes(entry);
    let parts = components(n);
    let p = join_parts(parts);
    lemma_components_plain(n, '/');
    lemma_components_plain(n, '\\');
    lemma_keep_not_skipped(split_on(n, '/'));
    lemma_join_plain(parts);
    assert(to_slashes(p) =~= p);
    lemma_split_join(parts);
    lemma_keep_all(parts);
    lemma_join_len(parts);
    lemma_no_rejection(entry, parts);
    assert(!starts_with(p, seq!['/'])) by {
        if starts_with(p, seq!['/']) {
            lemma_join_first(parts);
            assert(p.subrange(0, 1)[0] == p[0]);
        }
    }
}

/// Sanitising an accepted path gives it back unchanged.
pub proof fn lemma_sanitize_idempotent(entry: Seq<char>, max: usize)
    requires
        sanitize_spec(entry, max) is Ok,
    ensures
        sanitize_spec(sanitize_spec(entry, max)->Ok_0, max) == sanitize_spec(entry, max),
{
    lemma_accepted_shape(entry, max);
    let parts = components(to_slashes(entry));
    let p = join_parts(parts);
    assert forall|i: int| 0 <= i < parts.len() implies #[trigger] part_rejection(p, parts[i]) is None by {
        assert(part_rejection(entry, parts[i]) is None);
    }
    lemma_all_pass(p, parts);
}

/// An accepted path is a safe relative path.
pub proof fn lemma_sanitize_safe(entry: Seq<char>, max: usize)
    requires
        sanitize_spec(entry, max) is Ok,
    ensures
        is_safe_relative(sanitize_spec(entry, max)->Ok_0, max),
{
    lemma_accepted_shape(entry, max);
    let parts = components(to_slashes(entry));
    let p = join_parts(parts);
    assert forall|i: int| 0 <= i < split_on(p, '/').len() implies #[trigger] split_on(p, '/')[i]
        != dot_dot() by {
        assert(part_rejection(entry, parts[i]) is None);
    }
    assert forall|i: int| 0 <= i < split_on(p, '/').len() implies name_rejection(
        #[trigger] split_on(p, '/')[i],
    ) is None by {
        assert(part_rejection(entry, parts[i]) is None);
    }
}

/// A joined path holds only characters of its components and `/`; it holds
/// no `\` when the components hold none.
proof fn lemma_join_plain(parts: Seq<Seq<char>>)
    requires
        forall|i: int, j: int|
            0 <= i < parts.len() && 0 <= j < parts[i].len() ==> #[trigger] parts[i][j] != '\\',
    ensures
        forall|i: int| 0 <= i < join_parts(parts).len() ==> join_parts(parts)[i] != '\\',
    decreases parts.len(),
{
    if parts.len() > 1 {
        lemma_join_plain(parts.drop_last());
        let a = join_parts(parts.drop_last()).push('/');
        let b = parts.last();
        assert forall|i: int| 0 <= i < (a + b).len() implies (a + b)[i] != '\\' by {
            if i < a.len() - 1 {
                assert((a + b)[i] == join_parts(parts.drop_last())[i]);
            } else if i >= a.len() {
                assert((a + b)[i] == b[i - a.len()]);
                assert(b == parts[parts.len() - 1]);
            }
        }
    } else if parts.len() == 1 {
        assert forall|i: int| 0 <= i < join_parts(parts).len() implies join_parts(parts)[i] != '\\' by {
            assert(join_parts(parts)[i] == parts[0][i]);
        }
    }
}

/// The first character of a joined path is the first character of its first
/// component.
proof fn lemma_join_first(parts: Seq<Seq<char>>)
    requires
        parts.len() >= 1,
        parts[0].len() > 0,
    ensures
        join_parts(parts).len() > 0,
        join_parts(parts)[0] == parts[0][0],
    decreases parts.len(),
{
    if parts.len() > 1 {
        lemma_join_first(parts.drop_last());
    }
}

// ---------------------------------------------------------------------------
// Executable checks
// ---------------------------------------------------------------------------

/// `Rejected` with the message `prefix` followed by `tail`.
fn rejected(prefix: &str, tail: &[char]) -> (r: ArchiveError)
    ensures
        r matches ArchiveError::Rejected(s) && s@ == prefix@ + tail@,
{
    let mut v: Vec<char> = Vec::new();
    push_str(&mut v, prefix);
    let w = concat_chars(v.as_slice(), tail);
    ArchiveError::Rejected(string_of(w.as_slice()))
}

/// The part of `name` before its first `.`.
fn stem_chars(name: &[char]) -> (r: Vec<char>)
    ensures
        r@ == stem_of(name@),
{
    let mut stem: Vec<char> = Vec::new();
    let mut found = false;
    let mut i: usize = 0;
    proof {
        assert(name@.take(0) =~= Seq::<char>::empty());
    }
    while i < name.len()
        invariant
            i <= name.len(),
            split_on(name@.take(i as int), '.')[0] == stem@,
            found ==> split_on(name@.take(i as int), '.').len() >= 2,
            !found ==> split_on(name@.take(i as int), '.').len() == 1,
        decreases name.len() - i,
    {
        let c = name[i];
        assert(name@.take(i + 1).drop_last() =~= name@.take(i as int));
        if !found {
            if c == '.' {
                found = true;
            } else {
                stem.push(c);
            }
        }
        i += 1;
    }
    assert(name@.take(name@.len() as int) =~= name@);
    stem
}

/// Whether an upper-cased stem is a reserved device name.
fn is_reserved(s: &[char]) -> (r: bool)
    ensures
        r == is_reserved_stem(s@),
{
    let names: [&str; 22] = [
        "CON", "PRN", "AUX", "NUL", "COM1", "COM2", "COM3", "COM4", "COM5", "COM6", "COM7",
        "COM8", "COM9", "LPT1", "LPT2", "LPT3", "LPT4", "LPT5", "LPT6", "LPT7", "LPT8", "LPT9",
    ];
    let mut k: usize = 0;
    while k < 22
        invariant
            k <= 22,
            names@ == seq![
                "CON", "PRN", "AUX", "NUL", "COM1", "COM2", "COM3", "COM4", "COM5", "COM6",
                "COM7", "COM8", "COM9", "LPT1", "LPT2", "LPT3", "LPT4", "LPT5", "LPT6", "LPT7",
                "LPT8", "LPT9",
            ],
            forall|j: int| 0 <= j < k ==> s@ != (#[trigger] names@[j])@,
        decreases 22 - k,
    {
        let n = chars_of(names[k]);
        if chars_eq(s, n.as_slice()) {
            return true;
        }
        k += 1;
    }
    assert(!is_reserved_stem(s@)) by {
        assert(s@ != names@[0]@);
        assert(s@ != names@[1]@);
        assert(s@ != names@[2]@);
        assert(s@ != names@[3]@);
        assert(s@ != names@[4]@);
        assert(s@ != names@[5]@);
        assert(s@ != names@[6]@);
        assert(s@ != names@[7]@);
        assert(s@ != names@[8]@);
        assert(s@ != names@[9]@);
        assert(s@ != names@[10]@);
        assert(s@ != names@[11]@);
        assert(s@ != names@[12]@);
        assert(s@ != names@[13]@);
        assert(s@ != names@[14]@);
        assert(s@ != names@[15]@);
        assert(s@ != names@[16]@);
        assert(s@ != names@[17]@);
        assert(s@ != names@[18]@);
        assert(s@ != names@[19]@);
        assert(s@ != names@[20]@);
        assert(s@ != names@[21]@);
    }
    false
}

/// Refuses Windows device names and characters that Windows file names
/// cannot hold.
pub fn reject_windows_reserved_name(name: &[char]) -> (r: Result<(), ArchiveError>)
    ensures
        name_rejection(name@) is None ==> r is Ok,
        name_rejection(name@) matches Some(m) ==> r matches Err(e) && e matches ArchiveError::Rejected(
            s,
        ) && s@ == m,
{
    let stem = stem_chars(name);
    let upper = upper_chars(stem.as_slice());
    if is_reserved(upper.as_slice()) {
        return Err(rejected("拒绝 Windows 保留名: ", name));
    }
    let mut i: usize = 0;
    while i < name.len()
        invariant
            i <= name.len(),
            !is_reserved_stem(upper_seq(stem_of(name@))),
            forall|j: int| 0 <= j < i ==> !is_illegal_char(#[trigger] name@[j]),
        decreases name.len() - i,
    {
        let c = name[i];
        if c == '<' || c == '>' || c == ':' || c == '"' || c == '|' || c == '?' || c == '*' {
            assert(is_illegal_char(name@[i as int]));
            assert(!is_reserved_stem(upper_seq(stem_of(name@))));
            assert(name_rejection(name@) == Some("拒绝含非法字符的文件名: "@ + name@));
            return Err(rejected("拒绝含非法字符的文件名: ", name));
        }
        i += 1;
    }
    let mut j: usize = 0;
    while j < name.len()
        invariant
            j <= name.len(),
            !is_reserved_stem(upper_seq(stem_of(name@))),
            forall|k: int| 0 <= k < name.len() ==> !is_illegal_char(#[trigger] name@[k]),
            forall|k: int| 0 <= k < j ==> !is_control_char(#[trigger] name@[k]),
        decreases name.len() - j,
    {
        let c = name[j];
        if (c as u32) < 0x20 {
            assert(is_control_char(name@[j as int]));
            assert(!is_reserved_stem(upper_seq(stem_of(name@))));
            assert(name_rejection(name@) == Some("拒绝含控制字符的文件名: "@ + name@));
            return Err(rejected("拒绝含控制字符的文件名: ", name));
        }
        j += 1;
    }
    if utf8_len_chars(name) > 255 {
        return Err(rejected("文件名过长: ", name));
    }
    Ok(())
}

/// Checks an entry path from an archive and returns its relative output path
/// (components joined with `/`), with the default length limit of 4096 bytes.
/// `dest_root` is not consulted: the check touches no file system.
pub fn sanitize_entry_path(entry: &str, dest_root: &str) -> (r: Result<String, ArchiveError>)
    ensures
        sanitize_result(entry@, DEFAULT_MAX_PATH_LEN, r),
{
    sanitize_entry_path_limited(entry, dest_root, DEFAULT_MAX_PATH_LEN)
}

/// Checks an entry path from an archive against the safety rules and a limit
/// on the byte length of the result (see [`sanitize_spec`]).
pub fn sanitize_entry_path_limited(entry: &str, dest_root: &str, max_path_len: usize) -> (r: Result<
    String,
    ArchiveError,
>)
    ensures
        sanitize_result(entry@, max_path_len, r),
        r matches Ok(p) ==> is_safe_relative(p@, max_path_len),
{
    let e = chars_of(entry);
    if e.len() == 0 {
        let mut v: Vec<char> = Vec::new();
        push_str(&mut v, "空路径条目");
        return Err(ArchiveError::Rejected(string_of(v.as_slice())));
    }
    let n = slashes(e.as_slice());
    if n[0] == '/' {
        assert(starts_with(n@, seq!['/'])) by {
            assert(n@.subrange(0, 1) =~= seq!['/']);
        }
        return Err(rejected("拒绝绝对路径条目: ", e.as_slice()));
    }
    assert(!starts_with(n@, seq!['/'])) by {
        if starts_with(n@, seq!['/']) {
            assert(n@.subrange(0, 1)[0] == n@[0]);
        }
    }
    let parts = components_of(n.as_slice());
    let ghost gparts = components(n@);
    let mut k: usize = 0;
    while k < parts.len()
        invariant
            k <= parts.len(),
            e@ == entry@,
            n@ == to_slashes(e@),
            e@.len() > 0,
            !starts_with(n@, seq!['/']),
            parts@.len() == gparts.len(),
            gparts == components(n@),
            forall|i: int| 0 <= i < parts@.len() ==> (#[trigger] parts@[i])@ == gparts[i],
            first_rejection(e@, gparts.take(k as int)) is None,
        decreases parts.len() - k,
    {
        let part = &parts[k];
        assert(gparts.take(k + 1).drop_last() =~= gparts.take(k as int));
        if part.len() == 2 && part[0] == '.' && part[1] == '.' {
            assert(part@ =~= dot_dot());
            assert(gparts.take(k + 1).last() == part@);
            proof {
                assert(first_rejection(e@, gparts.take(k as int)) is None);
                assert(part_rejection(e@, part@) == Some("拒绝包含 .. 的条目: "@ + e@));
                assert(first_rejection(e@, gparts.take(k + 1)) == Some("拒绝包含 .. 的条目: "@ + e@));
                lemma_first_rejection_prefix(e@, gparts, (k + 1) as int);
                assert(to_slashes(entry@) == n@);
            }
            return Err(rejected("拒绝包含 .. 的条目: ", e.as_slice()));
        }
        assert(part@ != dot_dot()) by {
            if part@ == dot_dot() {
                assert(part@[0] == '.' && part@[1] == '.');
            }
        }
        match reject_windows_reserved_name(part.as_slice()) {
            Err(err) => {
                proof {
                    assert(gparts.take(k + 1).last() == part@);
                    lemma_first_rejection_prefix(e@, gparts, (k + 1) as int);
                }
                return Err(err);
            },
            Ok(()) => {},
        }
        k += 1;
    }
    assert(gparts.take(gparts.len() as int) =~= gparts);
    if parts.len() == 0 {
        let mut v: Vec<char> = Vec::new();
        push_str(&mut v, "空路径条目: ");
        let w = concat_chars(v.as_slice(), e.as_slice());
        return Err(ArchiveError::Rejected(string_of(w.as_slice())));
    }
    let mut joined: Vec<char> = Vec::new();
    let mut m: usize = 0;
    while m < parts.len()
        invariant
            m <= parts.len(),
            parts@.len() == gparts.len(),
            forall|i: int| 0 <= i < parts@.len() ==> (#[trigger] parts@[i])@ == gparts[i],
            joined@ == join_parts(gparts.take(m as int)),
        decreases parts.len() - m,
    {
        if m > 0 {
            joined.push('/');
        }
        let nj = concat_chars(joined.as_slice(), parts[m].as_slice());
        joined = nj;
        proof {
            let t = gparts.take(m + 1);
            assert(t.drop_last() =~= gparts.take(m as int));
            if m == 0 {
                assert(joined@ =~= t[0]);
            }
        }
        m += 1;
    }
    assert(gparts.take(gparts.len() as int) =~= gparts);
    let len = utf8_len_chars(joined.as_slice());
    if len > max_path_len {
        return Err(
            ArchiveError::PathTooLong {
                path: string_of(e.as_slice()),
                len,
                max: max_path_len,
            },
        );
    }
    let out = string_of(joined.as_slice());
    proof {
        lemma_sanitize_safe(e@, max_path_len);
    }
    Ok(out)
}

/// A refusal among the first `k` components is the first refusal of all.
proof fn lemma_first_rejection_prefix(entry: Seq<char>, parts: Seq<Seq<char>>, k: int)
    requires
        0 <= k <= parts.len(),
        first_rejection(entry, parts.take(k)) is Some,
    ensures
        first_rejection(entry, parts) == first_rejection(entry, parts.take(k)),
    decreases parts.len() - k,
{
    if k < parts.len() {
        let t = parts.take(k + 1);
        assert(t.drop_last() =~= parts.take(k));
        lemma_first_rejection_prefix(entry, parts, k + 1);
    } else {
        assert(parts.take(k) =~= parts);
    }
}

/// A name that holds one of `<`, `>`, `:`, `"`, `|`, `?`, `*` is refused,
/// whatever the rest of it.
pub proof fn lemma_illegal_chars_refused(n: Seq<char>, i: int, max: usize)
    requires
        forall|j: int| 0 <= j < n.len() ==> n[j] != '/' && n[j] != '\\',
        0 <= i < n.len(),
        n[i] == '<' || n[i] == '>' || n[i] == ':' || n[i] == '"' || n[i] == '|' || n[i] == '?'
            || n[i] == '*',
    ensures
        sanitize_spec(n, max) is Err,
{
    assert(to_slashes(n) =~= n);
    if n.len() > 0 && !starts_with(n, seq!['/']) {
        assert(n != seq!['.']);
        assert(n != seq!['.', '.']);
        lemma_single_name(n);
        let parts = components(n);
        assert(parts.drop_last() =~= Seq::<Seq<char>>::empty());
        assert(is_illegal_char(n[i]));
        assert(name_rejection(n) is Some);
        assert(first_rejection(n, parts) is Some);
    }
}

/// A character of a plain file name: an ASCII letter or digit, a space,
/// `.`, `-` or `_`.
pub open spec fn plain_name_char(c: char) -> bool {
    ('a' <= c && c <= 'z') || ('A' <= c && c <= 'Z') || ('0' <= c && c <= '9') || c == ' ' || c
        == '.' || c == '-' || c == '_'
}

/// A plain file name is accepted as it is: a name made of ASCII letters,
/// digits, spaces, `.`, `-` and `_` that is not `.` or `..`, whose stem is
/// no Windows device name and which has at most 255 bytes is extracted
/// under exactly that name.
pub proof fn lemma_plain_names_accepted(n: Seq<char>)
    requires
        n.len() > 0,
        n != seq!['.'],
        n != seq!['.', '.'],
        forall|i: int| 0 <= i < n.len() ==> plain_name_char(#[trigger] n[i]),
        !is_reserved_stem(upper_seq(stem_of(n))),
        utf8_len(n) <= 255,
    ensures
        sanitize_spec(n, DEFAULT_MAX_PATH_LEN) == Ok::<Seq<char>, PathRefusal>(n),
{
    assert(to_slashes(n) =~= n);
    assert(n.subrange(0, 1)[0] == n[0]);
    assert(!starts_with(to_slashes(n), seq!['/']));
    lemma_single_name(n);
    let parts = components(n);
    assert(parts.drop_last() =~= Seq::<Seq<char>>::empty());
    assert(first_rejection(n, parts.drop_last()) is None);
    assert(!(exists|i: int| 0 <= i < n.len() && is_illegal_char(#[trigger] n[i])));
    assert(!(exists|i: int| 0 <= i < n.len() && is_control_char(#[trigger] n[i])));
    assert(name_rejection(n) is None);
    assert(first_rejection(n, parts) is None);
    assert(join_parts(parts) == n);
    assert(clamp_usize(utf8_len(join_parts(parts))) <= DEFAULT_MAX_PATH_LEN);
}

} // verus!

verus! {

// ---------------------------------------------------------------------------
// Where an entry is written when its target already exists
// ---------------------------------------------------------------------------

/// Highest numeric suffix tried when renaming.
pub const MAX_RENAME_INDEX: u32 = 9999;

/// Where the file name of `target` starts: just after its last `/`.
pub open spec fn name_start(target: Seq<char>) -> int {
    match rfind(target, seq!['/']) {
        Some(i) => i + 1,
        None => 0,
    }
}

/// Stem and extension of the file name of `target` (`Path::file_stem`,
/// `Path::extension`); `file` with no extension when the path ends in no
/// file name.
pub open spec fn rename_parts(target: Seq<char>) -> (Seq<char>, Option<Seq<char>>) {
    let name = target.skip(name_start(target));
    if name.len() == 0 || name == dot() || name == dot_dot() {
        (seq!['f', 'i', 'l', 'e'], None)
    } else {
        stem_and_extension(name)
    }
}

/// The `index`-th new name for `target`: `stem (index).ext` beside it, for
/// a target that ends in a file name (as `Path::parent` joined with the new
/// name gives it).
pub open spec fn rename_candidate(target: Seq<char>, index: nat) -> Seq<char> {
    let (stem, ext) = rename_parts(target);
    target.take(name_start(target)) + stem + seq![' ', '('] + decimal(index) + seq![')'] + match ext {
        Some(e) => seq!['.'] + e,
        None => Seq::empty(),
    }
}

/// The stem and extension of a name, put back together, are no longer than
/// the name.
proof fn lemma_parts_len(name: Seq<char>)
    ensures
        ({
            let (stem, ext) = stem_and_extension(name);
            stem.len() + match ext {
                Some(e) => e.len() + 1,
                None => 0,
            } == name.len()
        }),
{
    if name != dot_dot() {
        match last_dot(name) {
            Some(i) => {
                lemma_last_dot_upto(name, name.len() - 1);
            },
            None => {},
        }
    }
}

/// A position found by `last_dot_upto` is a `.` within range.
proof fn lemma_last_dot_upto(name: Seq<char>, upto: int)
    requires
        upto < name.len(),
    ensures
        last_dot_upto(name, upto) matches Some(i) ==> 0 <= i <= upto && name[i] == '.',
    decreases upto + 1,
{
    if upto >= 0 && name[upto] != '.' {
        lemma_last_dot_upto(name, upto - 1);
    }
}

/// Renaming never gives back the target itself, and different numbers give
/// different names: every candidate of the `Rename` policy is a new path,
/// so the existing file and the new one are both kept.
pub proof fn lemma_rename_candidates_fresh(target: Seq<char>, j: nat, k: nat)
    ensures
        rename_candidate(target, k) != target,
        j != k ==> rename_candidate(target, j) != rename_candidate(target, k),
{
    let start = name_start(target);
    assert(0 <= start <= target.len()) by {
        let sep = seq!['/'];
        assert(sep.len() == 1);
        assert(rfind(target, sep) == rfind_upto(target, sep, target.len() - 1));
        lemma_rfind_upto(target, sep, target.len() - 1);
    }
    let name = target.skip(start);
    let (stem, ext) = rename_parts(target);
    let tail = match ext {
        Some(e) => seq!['.'] + e,
        None => Seq::<char>::empty(),
    };
    let head = target.take(start) + stem + seq![' ', '('];
    lemma_decimal_digits(j);
    lemma_decimal_digits(k);
    if !(name.len() == 0 || name == dot() || name == dot_dot()) {
        lemma_parts_len(name);
    } else {
        assert(name.len() <= 2) by {
            if name == dot() {
                assert(dot().len() == 1);
            } else if name == dot_dot() {
                assert(dot_dot().len() == 2);
            }
        }
    }
    let ck = rename_candidate(target, k);
    assert(ck == head + decimal(k) + seq![')'] + tail);
    assert(ck.len() > target.len());
    if j != k {
        let cj = rename_candidate(target, j);
        assert(cj == head + decimal(j) + seq![')'] + tail);
        if cj == ck {
            assert(decimal(j).len() == decimal(k).len());
            assert(cj.subrange(head.len() as int, (head.len() + decimal(j).len()) as int) =~= decimal(j));
            assert(ck.subrange(head.len() as int, (head.len() + decimal(k).len()) as int) =~= decimal(k));
            assert(decimal(j) == decimal(k));
        }
    }
}

/// The refusal message of the `Error` policy for an existing `target`.
pub open spec fn conflict_message(target: Seq<char>) -> Seq<char> {
    "目标已存在: "@ + target
}

/// The existence check `present` may have answered `answer` for the path `p`.
pub open spec fn answered<F: Fn(&str) -> bool>(present: F, p: Seq<char>, answer: bool) -> bool {
    exists|s: &str| s@ == p && #[trigger] present.ensures((s,), answer)
}

/// Where the file name of `t` starts (see [`name_start`]).
pub(crate) fn name_start_of(t: &[char]) -> (r: usize)
    ensures
        r == name_start(t@),
        r <= t@.len(),
{
    let sep: Vec<char> = vec!['/'];
    let ss = sep.as_slice();
    assert(ss@ =~= seq!['/']);
    proof {
        assert(rfind(t@, seq!['/']) == rfind_upto(t@, seq!['/'], t@.len() - 1));
        lemma_rfind_upto(t@, seq!['/'], t@.len() - 1);
    }
    let n = t.len();
    match rfind_chars(t, ss) {
        Some(i) => {
            assert(i < n);
            i + 1
        },
        None => 0,
    }
}

/// Stem and extension used to rename a path whose file name is `name`
/// (see [`rename_parts`]).
fn rename_parts_of(name: &[char]) -> (r: (Vec<char>, Option<Vec<char>>))
    ensures
        ({
            let (stem, ext) = if name@.len() == 0 || name@ == dot() || name@ == dot_dot() {
                (seq!['f', 'i', 'l', 'e'], None::<Seq<char>>)
            } else {
                stem_and_extension(name@)
            };
            &&& r.0@ == stem
            &&& r.1 matches Some(e) ==> ext == Some(e@)
            &&& r.1 is None ==> ext is None
        }),
{
    let is_dot = name.len() == 1 && name[0] == '.';
    let is_dot_dot = name.len() == 2 && name[0] == '.' && name[1] == '.';
    proof {
        if is_dot {
            assert(name@ =~= dot());
        } else if name@ == dot() {
            assert(name@[0] == '.');
        }
        if is_dot_dot {
            assert(name@ =~= dot_dot());
        } else if name@ == dot_dot() {
            assert(name@[0] == '.' && name@[1] == '.');
        }
    }
    if name.len() == 0 || is_dot || is_dot_dot {
        let v = vec!['f', 'i', 'l', 'e'];
        assert(v@ =~= seq!['f', 'i', 'l', 'e']);
        (v, None)
    } else {
        split_extension(name)
    }
}

/// The `index`-th new name for `target` (see [`rename_candidate`]).
pub fn rename_candidate_path(target: &str, index: u32) -> (r: String)
    ensures
        r@ == rename_candidate(target@, index as nat),
{
    let t = chars_of(target);
    let start = name_start_of(t.as_slice());
    let dir = slice_chars(t.as_slice(), 0, start);
    let name = slice_chars(t.as_slice(), start, t.len());
    assert(name@ =~= t@.skip(start as int));
    assert(dir@ =~= t@.take(start as int));
    let (stem, ext) = rename_parts_of(name.as_slice());
    let ghost parts = rename_parts(t@);
    let mut out = concat_chars(dir.as_slice(), stem.as_slice());
    out.push(' ');
    out.push('(');
    let digits = decimal_chars(index as u64);
    out = concat_chars(out.as_slice(), digits.as_slice());
    out.push(')');
    let ghost head = out@;
    assert(head =~= t@.take(name_start(t@)) + parts.0 + seq![' ', '('] + decimal(index as nat)
        + seq![')']);
    match ext {
        Some(e) => {
            out.push('.');
            out = concat_chars(out.as_slice(), e.as_slice());
            assert(out@ =~= head + (seq!['.'] + e@));
        },
        None => {
            assert(out@ =~= head + Seq::<char>::empty());
        },
    }
    string_of(out.as_slice())
}

/// Decides where the entry bound for `target` is written, given `present`,
/// the check whether a path exists.
///
/// A free target is used as it is. An existing one is skipped (`None`),
/// replaced, refused, or replaced by the first of `stem (1).ext` ..
/// `stem (9999).ext` that is free; when all are taken the entry is refused.
pub fn resolve_target_path<F: Fn(&str) -> bool>(
    target: &str,
    overwrite: OverwritePolicy,
    present: F,
) -> (r: Result<Option<String>, ArchiveError>)
    requires
        forall|s: &str| #[trigger] present.requires((s,)),
    ensures
        r matches Ok(Some(p)) && p@ == target@ && answered(present, target@, false)
            || answered(present, target@, true) && match overwrite {
            OverwritePolicy::Skip => r matches Ok(None),
            OverwritePolicy::Overwrite => r matches Ok(Some(p)) && p@ == target@,
            OverwritePolicy::Error => r matches Err(ArchiveError::Rejected(m))
                && m@ == conflict_message(target@),
            OverwritePolicy::Rename => (exists|k: nat|
                1 <= k <= MAX_RENAME_INDEX && (r matches Ok(Some(p)) && p@ == rename_candidate(
                    target@,
                    k,
                )) && #[trigger] answered(present, rename_candidate(target@, k), false) && forall|j: nat|
                    1 <= j < k ==> #[trigger] answered(present, rename_candidate(target@, j), true))
                || (r matches Err(ArchiveError::Rejected(m)) && m@ == "重命名冲突过多: "@ + target@
                && forall|j: nat|
                1 <= j <= MAX_RENAME_INDEX ==> #[trigger] answered(
                    present,
                    rename_candidate(target@, j),
                    true,
                )),
        },
{
    let t = chars_of(target);
    let taken = present(target);
    assert(present.ensures((target,), taken));
    if !taken {
        return Ok(Some(string_of(t.as_slice())));
    }
    match overwrite {
        OverwritePolicy::Skip => Ok(None),
        OverwritePolicy::Overwrite => Ok(Some(string_of(t.as_slice()))),
        OverwritePolicy::Error => Err(rejected("目标已存在: ", t.as_slice())),
        OverwritePolicy::Rename => {
            let mut index: u32 = 1;
            while index <= MAX_RENAME_INDEX
                invariant
                    1 <= index <= MAX_RENAME_INDEX + 1,
                    overwrite == OverwritePolicy::Rename,
                    answered(present, target@, true),
                    forall|s: &str| #[trigger] present.requires((s,)),
                    forall|j: nat|
                        1 <= j < index ==> #[trigger] answered(
                            present,
                            rename_candidate(target@, j),
                            true,
                        ),
                decreases MAX_RENAME_INDEX + 1 - index,
            {
                let candidate = rename_candidate_path(target, index);
                let c = candidate.as_str();
                let busy = present(c);
                if !busy {
                    let r: Result<Option<String>, ArchiveError> = Ok(Some(candidate));
                    assert(answered(present, rename_candidate(target@, index as nat), false));
                    assert(r matches Ok(Some(p)) && p@ == rename_candidate(target@, index as nat));
                    return r;
                }
                assert(answered(present, rename_candidate(target@, index as nat), true));
                index += 1;
            }
            Err(rejected("重命名冲突过多: ", t.as_slice()))
        },
    }
}

// ---------------------------------------------------------------------------
// Names of temporary siblings
// ---------------------------------------------------------------------------

/// The hidden name `.name.extractr-pid-sequence.label` of a temporary file
/// beside the output file `name`; `pid` and the per-process `sequence` keep
/// it unique.
pub open spec fn temp_name_spec(name: Seq<char>, pid: nat, sequence: nat, label: Seq<char>) -> Seq<char> {
    seq!['.'] + name + ".extractr-"@ + decimal(pid) + seq!['-'] + decimal(sequence) + seq!['.']
        + label
}

/// The hidden name `.dest.isolate-pid-sequence` of the directory beside the
/// destination `dest` into which a whole archive is first extracted.
pub open spec fn isolation_name_spec(dest: Seq<char>, pid: nat, sequence: nat) -> Seq<char> {
    seq!['.'] + dest + ".isolate-"@ + decimal(pid) + seq!['-'] + decimal(sequence)
}

/// See [`temp_name_spec`].
pub fn temp_sibling_name(name: &str, pid: u32, sequence: u64, label: &str) -> (r: String)
    ensures
        r@ == temp_name_spec(name@, pid as nat, sequence as nat, label@),
{
    let mut v: Vec<char> = vec!['.'];
    push_str(&mut v, name);
    push_str(&mut v, ".extractr-");
    let p = decimal_chars(pid as u64);
    v = concat_chars(v.as_slice(), p.as_slice());
    v.push('-');
    let q = decimal_chars(sequence);
    v = concat_chars(v.as_slice(), q.as_slice());
    v.push('.');
    push_str(&mut v, label);
    assert(v@ =~= temp_name_spec(name@, pid as nat, sequence as nat, label@));
    string_of(v.as_slice())
}

/// See [`isolation_name_spec`].
pub fn isolation_dir_name(dest: &str, pid: u32, sequence: u64) -> (r: String)
    ensures
        r@ == isolation_name_spec(dest@, pid as nat, sequence as nat),
{
    let mut v: Vec<char> = vec!['.'];
    push_str(&mut v, dest);
    push_str(&mut v, ".isolate-");
    let p = decimal_chars(pid as u64);
    v = concat_chars(v.as_slice(), p.as_slice());
    v.push('-');
    let q = decimal_chars(sequence);
    v = concat_chars(v.as_slice(), q.as_slice());
    assert(v@ =~= isolation_name_spec(dest@, pid as nat, sequence as nat));
    string_of(v.as_slice())
}

/// The directory part of a sanitised relative path: everything before its
/// last `/` (empty for a bare name), as `Path::parent` gives it.
pub open spec fn parent_spec(relative: Seq<char>) -> Seq<char> {
    let start = name_start(relative);
    if start == 0 {
        Seq::empty()
    } else {
        relative.take(start - 1)
    }
}

/// See [`parent_spec`].
pub fn parent_dir(relative: &str) -> (r: String)
    ensures
        r@ == parent_spec(relative@),
{
    let c = chars_of(relative);
    let start = name_start_of(c.as_slice());
    if start == 0 {
        return string_of(&[]);
    }
    let p = slice_chars(c.as_slice(), 0, start - 1);
    assert(p@ =~= relative@.take(start - 1));
    string_of(p.as_slice())
}

/// A step of committing a written file over its target: the new file sits
/// beside the target under a temporary name until it replaces it.
#[derive(Debug, Clone, Copy, PartialEq, Eq, Structural)]
pub enum CommitAction {
    /// Move the existing target aside to a backup name.
    MoveOldAside,
    /// Move the new file to the target name.
    PlaceNew,
    /// Move the backup back to the target name (the new file could not be
    /// placed).
    RestoreOld,
    /// Remove the backup of the old target.
    RemoveBackup,
    /// The file is committed.
    Done,
    /// Committing failed; report the error of the failed step.
    Fail,
}

/// The first step of a commit: an existing target is moved aside first.
pub open spec fn commit_first_spec(target_exists: bool) -> CommitAction {
    if target_exists {
        CommitAction::MoveOldAside
    } else {
        CommitAction::PlaceNew
    }
}

/// The step after `done` succeeded (`ok`) or failed. The new file is placed
/// only once the old target is aside; when placing it fails the old target
/// is put back (whatever that gives) and the commit fails; the backup is
/// removed once the new file is in place, and a failure to remove it fails
/// the commit.
pub open spec fn commit_next_spec(done: CommitAction, ok: bool, target_exists: bool) -> CommitAction {
    match done {
        CommitAction::MoveOldAside => if ok {
            CommitAction::PlaceNew
        } else {
            CommitAction::Fail
        },
        CommitAction::PlaceNew => if ok {
            if target_exists {
                CommitAction::RemoveBackup
            } else {
                CommitAction::Done
            }
        } else if target_exists {
            CommitAction::RestoreOld
        } else {
            CommitAction::Fail
        },
        CommitAction::RestoreOld => CommitAction::Fail,
        CommitAction::RemoveBackup => if ok {
            CommitAction::Done
        } else {
            CommitAction::Fail
        },
        CommitAction::Done => CommitAction::Done,
        CommitAction::Fail => CommitAction::Fail,
    }
}

/// See [`commit_first_spec`].
pub fn commit_first(target_exists: bool) -> (r: CommitAction)
    ensures
        r == commit_first_spec(target_exists),
{
    if target_exists {
        CommitAction::MoveOldAside
    } else {
        CommitAction::PlaceNew
    }
}

/// See [`commit_next_spec`].
pub fn commit_next(done: CommitAction, ok: bool, target_exists: bool) -> (r: CommitAction)
    ensures
        r == commit_next_spec(done, ok, target_exists),
{
    match done {
        CommitAction::MoveOldAside => if ok {
            CommitAction::PlaceNew
        } else {
            CommitAction::Fail
        },
        CommitAction::PlaceNew => if ok {
            if target_exists {
                CommitAction::RemoveBackup
            } else {
                CommitAction::Done
            }
        } else if target_exists {
            CommitAction::RestoreOld
        } else {
            CommitAction::Fail
        },
        CommitAction::RestoreOld => CommitAction::Fail,
        CommitAction::RemoveBackup => if ok {
            CommitAction::Done
        } else {
            CommitAction::Fail
        },
        CommitAction::Done => CommitAction::Done,
        CommitAction::Fail => CommitAction::Fail,
    }
}

/// The commit never loses the old target: the new file is placed only
/// after an existing target was moved aside, and a failed placement of the
/// new file over an existing target puts the old one back before failing.
pub proof fn lemma_commit_keeps_old(target_exists: bool)
    ensures
        target_exists ==> commit_first_spec(target_exists) == CommitAction::MoveOldAside,
        commit_next_spec(CommitAction::MoveOldAside, false, target_exists) == CommitAction::Fail,
        target_exists ==> commit_next_spec(CommitAction::PlaceNew, false, target_exists)
            == CommitAction::RestoreOld,
        commit_next_spec(CommitAction::RestoreOld, true, target_exists) == CommitAction::Fail,
        commit_next_spec(CommitAction::RestoreOld, false, target_exists) == CommitAction::Fail,
{
}

} // verus!
