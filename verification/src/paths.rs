//! Path strings as the standard library reads them on Unix: separators,
//! components, file names, stems and extensions.
//!
//! Paths are character sequences; `/` separates components, empty components
//! and `.` are not components, and `..` is the parent component.

use vstd::prelude::*;
use crate::text::{chars_eq, ends_with, slice_chars};

verus! {

/// Splits `s` at every occurrence of `sep` (`str::split`); never empty.
pub open spec fn split_on(s: Seq<char>, sep: char) -> Seq<Seq<char>>
    decreases s.len(),
{
    if s.len() == 0 {
        seq![Seq::<char>::empty()]
    } else {
        let r = split_on(s.drop_last(), sep);
        if s.last() == sep {
            r.push(Seq::<char>::empty())
        } else {
            r.update(r.len() - 1, r.last().push(s.last()))
        }
    }
}

/// The component `.`.
pub open spec fn dot() -> Seq<char> {
    seq!['.']
}

/// The component `..`.
pub open spec fn dot_dot() -> Seq<char> {
    seq!['.', '.']
}

/// A name without `/` that is neither empty, `.` nor `..` is the only
/// component of itself, and its own file name.
pub proof fn lemma_single_name(s: Seq<char>)
    requires
        s.len() > 0,
        s != dot(),
        s != dot_dot(),
        forall|j: int| 0 <= j < s.len() ==> s[j] != '/',
    ensures
        components(s) == seq![s],
        file_name(s) == Some(s),
{
    lemma_split_no_sep(s, '/');
    assert(!is_skipped(seq![s][0]));
    lemma_keep_all(seq![s]);
}

/// The file name of `dir/name` is `name`, whatever the directory part, for
/// a name without `/` that is neither empty, `.` nor `..`.
pub proof fn lemma_file_name_in_dir(dir: Seq<char>, name: Seq<char>)
    requires
        name.len() > 0,
        name != dot(),
        name != dot_dot(),
        forall|j: int| 0 <= j < name.len() ==> name[j] != '/',
    ensures
        file_name(dir + seq!['/'] + name) == Some(name),
{
    let a = dir + seq!['/'];
    assert(a.drop_last() =~= dir);
    lemma_split_nonempty(dir, '/');
    lemma_split_append_plain(a, name, '/');
    assert(a + name =~= dir + seq!['/'] + name);
    let pre = split_on(a, '/').drop_last();
    lemma_keep_concat(pre, seq![name]);
    assert(pre.push(name) =~= pre + seq![name]);
    assert(!is_skipped(seq![name][0]));
    lemma_keep_all(seq![name]);
}

/// A piece between separators that is not a path component.
pub open spec fn is_skipped(seg: Seq<char>) -> bool {
    seg.len() == 0 || seg == dot()
}

/// The pieces that are path components, in order.
pub open spec fn keep_parts(segs: Seq<Seq<char>>) -> Seq<Seq<char>>
    decreases segs.len(),
{
    if segs.len() == 0 {
        Seq::empty()
    } else {
        let k = keep_parts(segs.drop_last());
        if is_skipped(segs.last()) {
            k
        } else {
            k.push(segs.last())
        }
    }
}

/// The components of a `/`-separated path (without a leading root).
pub open spec fn components(s: Seq<char>) -> Seq<Seq<char>> {
    keep_parts(split_on(s, '/'))
}

/// Components joined with `/` (what `PathBuf::push` builds).
pub open spec fn join_parts(parts: Seq<Seq<char>>) -> Seq<char>
    decreases parts.len(),
{
    if parts.len() == 0 {
        Seq::empty()
    } else if parts.len() == 1 {
        parts[0]
    } else {
        join_parts(parts.drop_last()).push('/') + parts.last()
    }
}

/// `a` is a prefix of `b`.
pub open spec fn is_prefix<T>(a: Seq<T>, b: Seq<T>) -> bool {
    a.len() <= b.len() && b.take(a.len() as int) == a
}

/// The file name of a path: its last component, unless that is `..`
/// (`Path::file_name`).
pub open spec fn file_name(s: Seq<char>) -> Option<Seq<char>> {
    let parts = components(s);
    if parts.len() == 0 || parts.last() == dot_dot() {
        None
    } else {
        Some(parts.last())
    }
}

/// Position of the last `.` in `name`, if any.
pub open spec fn last_dot_upto(name: Seq<char>, upto: int) -> Option<int>
    decreases upto + 1,
{
    if upto < 0 {
        None
    } else if name[upto] == '.' {
        Some(upto)
    } else {
        last_dot_upto(name, upto - 1)
    }
}

/// Position of the last `.` in `name`, if any.
pub open spec fn last_dot(name: Seq<char>) -> Option<int> {
    last_dot_upto(name, name.len() - 1)
}

/// Splits a file name into stem and extension (`Path::file_stem` /
/// `Path::extension`): `..` has no extension, nor does a name whose only `.`
/// is its first character.
pub open spec fn stem_and_extension(name: Seq<char>) -> (Seq<char>, Option<Seq<char>>) {
    if name == dot_dot() {
        (name, None)
    } else {
        match last_dot(name) {
            Some(i) => if i == 0 {
                (name, None)
            } else {
                (name.take(i), Some(name.skip(i + 1)))
            },
            None => (name, None),
        }
    }
}

// ---------------------------------------------------------------------------
// Lemmas
// ---------------------------------------------------------------------------

/// Splitting gives at least one piece.
pub proof fn lemma_split_nonempty(s: Seq<char>, sep: char)
    ensures
        split_on(s, sep).len() >= 1,
    decreases s.len(),
{
    if s.len() > 0 {
        lemma_split_nonempty(s.drop_last(), sep);
    }
}

/// The finished pieces of a prefix are a prefix of the pieces of the whole.
pub proof fn lemma_split_prefix(s: Seq<char>, k: int, sep: char)
    requires
        0 <= k <= s.len(),
    ensures
        is_prefix(split_on(s.take(k), sep).drop_last(), split_on(s, sep)),
    decreases s.len() - k,
{
    lemma_split_nonempty(s.take(k), sep);
    lemma_split_nonempty(s, sep);
    if k == s.len() {
        assert(s.take(k) =~= s);
        let a = split_on(s, sep);
        assert(a.take(a.len() - 1) =~= a.drop_last());
    } else {
        lemma_split_prefix(s, k + 1, sep);
        let t = s.take(k + 1);
        assert(t.drop_last() =~= s.take(k));
        lemma_split_nonempty(s.take(k), sep);
        let a = split_on(s.take(k), sep);
        let b = split_on(t, sep);
        let c = split_on(s, sep);
        assert(is_prefix(a.drop_last(), b.drop_last())) by {
            if t.last() == sep {
                assert(b.drop_last() =~= a);
                assert(a.take(a.len() - 1) =~= a.drop_last());
            } else {
                assert(b.drop_last() =~= a.drop_last());
                assert(a.drop_last().take(a.drop_last().len() as int) =~= a.drop_last());
            }
        }
        assert(c.take(a.drop_last().len() as int) =~= b.drop_last().take(
            a.drop_last().len() as int,
        ));
    }
}

/// Keeping components distributes over concatenation.
pub proof fn lemma_keep_concat(a: Seq<Seq<char>>, b: Seq<Seq<char>>)
    ensures
        keep_parts(a + b) == keep_parts(a) + keep_parts(b),
    decreases b.len(),
{
    if b.len() == 0 {
        assert(a + b =~= a);
        assert(keep_parts(a) + keep_parts(b) =~= keep_parts(a));
    } else {
        lemma_keep_concat(a, b.drop_last());
        assert((a + b).drop_last() =~= a + b.drop_last());
        if is_skipped(b.last()) {
        } else {
            assert(keep_parts(a) + keep_parts(b.drop_last()).push(b.last()) =~= (keep_parts(a)
                + keep_parts(b.drop_last())).push(b.last()));
        }
    }
}

/// No kept component is empty or `.`.
pub proof fn lemma_keep_not_skipped(segs: Seq<Seq<char>>)
    ensures
        forall|i: int| 0 <= i < keep_parts(segs).len() ==> !is_skipped(#[trigger] keep_parts(segs)[i]),
    decreases segs.len(),
{
    if segs.len() > 0 {
        lemma_keep_not_skipped(segs.drop_last());
        let k = keep_parts(segs.drop_last());
        if !is_skipped(segs.last()) {
            assert forall|i: int| 0 <= i < k.push(segs.last()).len() implies !is_skipped(
                #[trigger] k.push(segs.last())[i],
            ) by {
                if i < k.len() {
                    assert(k.push(segs.last())[i] == k[i]);
                }
            }
        }
    }
}

/// Joining components that hold no `/` and then splitting gives them back.
pub proof fn lemma_split_join(parts: Seq<Seq<char>>)
    requires
        parts.len() >= 1,
        forall|i: int, j: int|
            0 <= i < parts.len() && 0 <= j < parts[i].len() ==> #[trigger] parts[i][j] != '/',
    ensures
        split_on(join_parts(parts), '/') == parts,
    decreases parts.len(),
{
    if parts.len() == 1 {
        lemma_split_no_sep(parts[0], '/');
        assert(seq![parts[0]] =~= parts);
    } else {
        let init = parts.drop_last();
        lemma_split_join(init);
        let j0 = join_parts(init).push('/');
        assert(split_on(j0, '/') =~= init.push(Seq::<char>::empty())) by {
            assert(j0.drop_last() =~= join_parts(init));
        }
        lemma_split_append_plain(j0, parts.last(), '/');
        assert(init.push(parts.last()) =~= parts);
    }
}

/// Splitting a sequence with no separator gives just that sequence.
pub proof fn lemma_split_no_sep(s: Seq<char>, sep: char)
    requires
        forall|j: int| 0 <= j < s.len() ==> s[j] != sep,
    ensures
        split_on(s, sep) == seq![s],
    decreases s.len(),
{
    if s.len() > 0 {
        lemma_split_no_sep(s.drop_last(), sep);
        assert(s.drop_last().push(s.last()) =~= s);
        assert(seq![s.drop_last()].update(0, s) =~= seq![s]);
    } else {
        assert(s =~= Seq::<char>::empty());
    }
}

/// Appending characters that are not separators extends the last piece.
pub proof fn lemma_split_append_plain(a: Seq<char>, b: Seq<char>, sep: char)
    requires
        forall|j: int| 0 <= j < b.len() ==> b[j] != sep,
        split_on(a, sep).last().len() == 0,
    ensures
        split_on(a + b, sep) == split_on(a, sep).drop_last().push(b),
    decreases b.len(),
{
    lemma_split_nonempty(a, sep);
    if b.len() == 0 {
        assert(a + b =~= a);
        assert(split_on(a, sep).last() =~= b);
        assert(split_on(a, sep).drop_last().push(b) =~= split_on(a, sep));
    } else {
        lemma_split_append_plain(a, b.drop_last(), sep);
        assert((a + b).drop_last() =~= a + b.drop_last());
        let r = split_on(a, sep).drop_last().push(b.drop_last());
        assert((a + b).last() == b.last());
        assert(r.last().push(b.last()) =~= b);
        assert(r.update(r.len() - 1, r.last().push(b.last())) =~= split_on(a, sep).drop_last().push(
            b,
        ));
    }
}

/// Components that are not skipped are kept unchanged.
pub proof fn lemma_keep_all(parts: Seq<Seq<char>>)
    requires
        forall|i: int| 0 <= i < parts.len() ==> !is_skipped(#[trigger] parts[i]),
    ensures
        keep_parts(parts) == parts,
    decreases parts.len(),
{
    if parts.len() > 0 {
        lemma_keep_all(parts.drop_last());
        assert(parts.drop_last().push(parts.last()) =~= parts);
    }
}

/// A joined path holds a `/` only between components; each component of it
/// is found again in it.
pub proof fn lemma_join_len(parts: Seq<Seq<char>>)
    requires
        forall|i: int| 0 <= i < parts.len() ==> (#[trigger] parts[i]).len() > 0,
    ensures
        (join_parts(parts).len() == 0) == (parts.len() == 0),
    decreases parts.len(),
{
    if parts.len() > 1 {
        lemma_join_len(parts.drop_last());
    }
}

// ---------------------------------------------------------------------------
// Executable helpers
// ---------------------------------------------------------------------------

/// Replaces every `\` with `/`.
pub open spec fn to_slashes(s: Seq<char>) -> Seq<char> {
    Seq::new(s.len(), |i: int| if s[i] == '\\' { '/' } else { s[i] })
}

/// Replaces every `\` with `/` (`str::replace('\\', "/")`).
pub fn slashes(s: &[char]) -> (r: Vec<char>)
    ensures
        r@ == to_slashes(s@),
{
    let mut v: Vec<char> = Vec::new();
    let mut i: usize = 0;
    while i < s.len()
        invariant
            i <= s.len(),
            v@ =~= to_slashes(s@.take(i as int)),
        decreases s.len() - i,
    {
        if s[i] == '\\' {
            v.push('/');
        } else {
            v.push(s[i]);
        }
        i += 1;
    }
    assert(s@.take(s@.len() as int) =~= s@);
    v
}

/// The components of a `/`-separated path, each as its own vector.
pub fn components_of(s: &[char]) -> (r: Vec<Vec<char>>)
    ensures
        r@.len() == components(s@).len(),
        forall|i: int| 0 <= i < r@.len() ==> (#[trigger] r@[i])@ == components(s@)[i],
{
    let mut out: Vec<Vec<char>> = Vec::new();
    let mut cur: Vec<char> = Vec::new();
    let mut i: usize = 0;
    proof {
        lemma_split_nonempty(s@.take(0), '/');
        assert(s@.take(0) =~= Seq::<char>::empty());
    }
    while i < s.len()
        invariant
            i <= s.len(),
            split_on(s@.take(i as int), '/').len() >= 1,
            cur@ == split_on(s@.take(i as int), '/').last(),
            out@.len() == keep_parts(split_on(s@.take(i as int), '/').drop_last()).len(),
            forall|k: int|
                0 <= k < out@.len() ==> (#[trigger] out@[k])@ == keep_parts(
                    split_on(s@.take(i as int), '/').drop_last(),
                )[k],
        decreases s.len() - i,
    {
        let ghost before = split_on(s@.take(i as int), '/');
        let c = s[i];
        assert(s@.take(i + 1).drop_last() =~= s@.take(i as int));
        if c == '/' {
            let is_dot = cur.len() == 1 && cur[0] == '.';
            if cur.len() > 0 && !is_dot {
                proof {
                    assert(cur@ != dot() ==> !is_dot) by {
                        if is_dot {
                            assert(cur@ =~= dot());
                        }
                    }
                }
                out.push(cur);
            } else {
                proof {
                    if cur.len() > 0 {
                        assert(cur@ =~= dot());
                    }
                }
            }
            cur = Vec::new();
            proof {
                let after = split_on(s@.take(i + 1), '/');
                assert(after.drop_last() =~= before);
                assert(cur@ =~= after.last());
            }
        } else {
            cur.push(c);
            proof {
                let after = split_on(s@.take(i + 1), '/');
                assert(after.drop_last() =~= before.drop_last());
            }
        }
        i += 1;
    }
    assert(s@.take(s@.len() as int) =~= s@);
    let is_dot = cur.len() == 1 && cur[0] == '.';
    proof {
        let segs = split_on(s@, '/');
        assert(segs.drop_last().push(segs.last()) =~= segs);
        if is_dot {
            assert(cur@ =~= dot());
        }
        if cur.len() == 1 && cur@ == dot() {
            assert(cur@[0] == '.');
        }
    }
    if cur.len() > 0 && !is_dot {
        out.push(cur);
    }
    out
}

/// Extension and stem of a file name (see [`stem_and_extension`]).
pub fn split_extension(name: &[char]) -> (r: (Vec<char>, Option<Vec<char>>))
    ensures
        r.0@ == stem_and_extension(name@).0,
        r.1 matches Some(e) ==> stem_and_extension(name@).1 == Some(e@),
        r.1 is None ==> stem_and_extension(name@).1 is None,
{
    let whole = slice_chars(name, 0, name.len());
    assert(name@.subrange(0, name@.len() as int) =~= name@);
    assert(whole@ == name@);
    if name.len() == 2 && name[0] == '.' && name[1] == '.' {
        assert(name@ =~= dot_dot());
        return (whole, None);
    }
    assert(name@ != dot_dot()) by {
        if name@ == dot_dot() {
            assert(name@[0] == '.' && name@[1] == '.');
        }
    }
    let mut i: usize = name.len();
    while i > 0
        invariant
            i <= name.len(),
            last_dot(name@) == last_dot_upto(name@, i - 1),
            whole@ == name@,
            name@ != dot_dot(),
        decreases i,
    {
        if name[i - 1] == '.' {
            let p = i - 1;
            assert(last_dot(name@) == Some(p as int));
            assert(whole@ =~= name@);
            if p == 0 {
                return (whole, None);
            }
            let stem = slice_chars(name, 0, p);
            let ext = slice_chars(name, p + 1, name.len());
            assert(stem@ =~= name@.take(p as int));
            assert(ext@ =~= name@.skip(p + 1));
            return (stem, Some(ext));
        }
        i -= 1;
    }
    (whole, None)
}

} // verus!

verus! {

/// The file name of a path (see [`file_name`]).
pub fn file_name_of(path: &[char]) -> (r: Option<Vec<char>>)
    ensures
        r matches Some(v) ==> file_name(path@) == Some(v@),
        r is None ==> file_name(path@) is None,
{
    let parts = components_of(path);
    if parts.len() == 0 {
        return None;
    }
    let last = &parts[parts.len() - 1];
    if last.len() == 2 && last[0] == '.' && last[1] == '.' {
        assert(last@ =~= dot_dot());
        return None;
    }
    assert(last@ != dot_dot()) by {
        if last@ == dot_dot() {
            assert(last@[0] == '.' && last@[1] == '.');
        }
    }
    let v = slice_chars(last.as_slice(), 0, last.len());
    assert(last@.subrange(0, last@.len() as int) =~= last@);
    Some(v)
}

} // verus!
