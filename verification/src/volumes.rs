//! Names and offsets of split archives: which file is the first volume of a
//! set, how the following volumes are named, and where a position of the
//! joined stream lies.

use vstd::prelude::*;
use vstd::string::*;
use crate::paths::file_name;
use crate::text::{
    all_digit_chars, all_digits, ascii_lower, chars_of, concat_chars, contains, decimal, digits_value,
    ends_with, find, find_chars, find_from, is_digit, lemma_find_from, lower_chars, lower_seq,
    matches_at, parse_u32, parse_u32_chars, push_str, rfind, rfind_chars, slice_chars, string_of,
    utf8_len, views, zero_padded, zero_padded_chars,
    ends_with_str,
};
use crate::paths::file_name_of;
use crate::safety::{answered, name_start, name_start_of};

verus! {

/// There is a character boundary `b` bytes before the end of `s`.
pub open spec fn boundary_from_end(s: Seq<char>, b: nat) -> bool {
    exists|k: int| 0 <= k <= s.len() && utf8_len(#[trigger] s.skip(k)) == b
}

/// `xxx.partNN.rar` with NN > 1 names the volume `xxx.part01.rar` (the
/// number keeps its width).
pub open spec fn rar5_first(name: Seq<char>) -> Option<Seq<char>> {
    let lower = lower_seq(name);
    if ends_with(lower, ".rar"@) {
        match find(lower, ".part"@) {
            Some(idx) => {
                let num = lower.subrange(idx + 5, lower.len() - 4);
                match parse_u32(num) {
                    Some(n) => if n > 1 {
                        Some(name.take(idx) + ".part"@ + zero_padded(1, num.len()) + ".rar"@)
                    } else {
                        None
                    },
                    None => None,
                }
            },
            None => None,
        }
    } else {
        None
    }
}

/// The name ends with `.` `letter` and two digits, after at least one more
/// character, and the two digits make a number above `min`.
pub open spec fn numbered_ext(lower: Seq<char>, letter: char, min: nat) -> bool {
    let l = lower.len();
    l > 4 && lower[l - 4] == '.' && lower[l - 3] == letter && is_digit(lower[l - 2]) && is_digit(
        lower[l - 1],
    ) && digits_value(lower.subrange(l - 2, l as int)) > min
}

/// `xxx.rNN` with NN > 0 names the volume `xxx.rar`.
pub open spec fn rar4_first(name: Seq<char>) -> Option<Seq<char>> {
    if numbered_ext(lower_seq(name), 'r', 0) {
        Some(name.take(name.len() - 4) + ".rar"@)
    } else {
        None
    }
}

/// `xxx<base>NNN` with NNN > 1 names the volume `xxx<base>001` (the number
/// keeps its width; it is made of digits, so characters and bytes agree).
pub open spec fn numbered_first(name: Seq<char>, base: Seq<char>) -> Option<Seq<char>> {
    let lower = lower_seq(name);
    match find(lower, base) {
        Some(idx) => {
            let after = lower.skip(idx + base.len());
            match parse_u32(after) {
                Some(n) => if n > 1 {
                    Some(name.take(idx + base.len()) + zero_padded(1, after.len()))
                } else {
                    None
                },
                None => None,
            }
        },
        None => None,
    }
}

/// `xxx.zNN` with NN > 1 names the volume `xxx.zip`.
pub open spec fn zip_split_first(name: Seq<char>) -> Option<Seq<char>> {
    if numbered_ext(lower_seq(name), 'z', 1) {
        Some(name.take(name.len() - 4) + ".zip"@)
    } else {
        None
    }
}

/// An optional value as a sequence of zero or one elements.
pub open spec fn opt_seq(o: Option<Seq<char>>) -> Seq<Seq<char>> {
    match o {
        Some(v) => seq![v],
        None => Seq::empty(),
    }
}

/// The names that the first volume of the set may have, in the order in which
/// they are tried: RAR5 parts, RAR4 `.rNN`, `.7z.NNN`, `.zip.NNN`, `.zNN`.
/// The first of them that exists beside the file is its first volume.
pub open spec fn first_volume_names(name: Seq<char>) -> Seq<Seq<char>> {
    opt_seq(rar5_first(name)) + opt_seq(rar4_first(name)) + opt_seq(numbered_first(name, ".7z."@))
        + opt_seq(numbered_first(name, ".zip."@)) + opt_seq(zip_split_first(name))
}

/// Candidate names of the first volume for the file at `path`.
pub open spec fn candidates_spec(path: Seq<char>) -> Seq<Seq<char>> {
    match file_name(path) {
        Some(n) => first_volume_names(n),
        None => Seq::empty(),
    }
}

fn lit(s: &str) -> (r: Vec<char>)
    ensures
        r@ == s@,
{
    chars_of(s)
}

fn rar5_candidate(name: &[char], lower: &[char]) -> (r: Option<Vec<char>>)
    requires
        lower@ == lower_seq(name@),
    ensures
        r matches Some(v) ==> rar5_first(name@) == Some(v@),
        r is None ==> rar5_first(name@) is None,
{
    if !ends_with_str(lower, ".rar") {
        return None;
    }
    let part = lit(".part");
    let idx = match find_chars(lower, part.as_slice()) {
        Some(i) => i,
        None => return None,
    };
    proof {
        crate::text::lemma_find_from(lower@, ".part"@, 0);
        reveal_strlit(".part");
        reveal_strlit(".rar");
        let l = lower@.len();
        assert(lower@.subrange(l - 4, l as int)[0] == lower@[l - 4]);
        assert(lower@[l - 4] == '.');
        assert(idx + 5 <= l) by {
            assert(matches_at(lower@, ".part"@, idx as int));
        }
        if idx + 5 > l - 4 {
            let d = (l - 4) - idx;
            assert(lower@.subrange(idx as int, idx + 5)[d] == lower@[idx + d]);
            assert(".part"@[d] != '.');
        }
        assert(idx + 5 <= l - 4);
    }
    let total = lower.len();
    assert(idx + 5 <= total - 4);
    let num = slice_chars(lower, idx + 5, total - 4);
    match parse_u32_chars(num.as_slice()) {
        Some(n) => {
            if n > 1 {
                let head = slice_chars(name, 0, idx);
                assert(head@ =~= name@.take(idx as int));
                let mut v = head;
                push_str(&mut v, ".part");
                let pad = zero_padded_chars(1, num.len());
                let mut w = concat_chars(v.as_slice(), pad.as_slice());
                push_str(&mut w, ".rar");
                Some(w)
            } else {
                None
            }
        },
        None => None,
    }
}

fn numbered_ext_check(lower: &[char], letter: char, min: u32) -> (r: bool)
    ensures
        r == numbered_ext(lower@, letter, min as nat),
{
    let l = lower.len();
    if l > 4 && lower[l - 4] == '.' && lower[l - 3] == letter && '0' <= lower[l - 2] && lower[l
        - 2] <= '9' && '0' <= lower[l - 1] && lower[l - 1] <= '9' {
        let d1 = (lower[l - 2] as u32) - ('0' as u32);
        let d2 = (lower[l - 1] as u32) - ('0' as u32);
        let ghost t = lower@.subrange(l - 2, l as int);
        assert(t.drop_last() =~= seq![lower@[l - 2]]);
        assert(seq![lower@[l - 2]].drop_last() =~= Seq::<char>::empty());
        let ghost c1 = lower@[l - 2];
        assert(seq![c1].last() == c1);
        assert((c1 as u32) as int == c1 as int);
        assert(digits_value(seq![c1]) == digits_value(Seq::<char>::empty()) * 10 + ((c1 as int) - ('0' as int)) as nat);
        assert(digits_value(seq![lower@[l - 2]]) == d1);
        assert(digits_value(t) == d1 * 10 + d2);
        d1 * 10 + d2 > min
    } else {
        false
    }
}

fn rar4_candidate(name: &[char], lower: &[char]) -> (r: Option<Vec<char>>)
    requires
        lower@ == lower_seq(name@),
    ensures
        r matches Some(v) ==> rar4_first(name@) == Some(v@),
        r is None ==> rar4_first(name@) is None,
{
    if numbered_ext_check(lower, 'r', 0) {
        let mut v = slice_chars(name, 0, name.len() - 4);
        assert(v@ =~= name@.take(name@.len() - 4));
        push_str(&mut v, ".rar");
        Some(v)
    } else {
        None
    }
}

fn zip_split_candidate(name: &[char], lower: &[char]) -> (r: Option<Vec<char>>)
    requires
        lower@ == lower_seq(name@),
    ensures
        r matches Some(v) ==> zip_split_first(name@) == Some(v@),
        r is None ==> zip_split_first(name@) is None,
{
    if numbered_ext_check(lower, 'z', 1) {
        let mut v = slice_chars(name, 0, name.len() - 4);
        assert(v@ =~= name@.take(name@.len() - 4));
        push_str(&mut v, ".zip");
        Some(v)
    } else {
        None
    }
}

fn numbered_candidate(name: &[char], lower: &[char], base: &str) -> (r: Option<Vec<char>>)
    requires
        lower@ == lower_seq(name@),
    ensures
        r matches Some(v) ==> numbered_first(name@, base@) == Some(v@),
        r is None ==> numbered_first(name@, base@) is None,
{
    let b = lit(base);
    let idx = match find_chars(lower, b.as_slice()) {
        Some(i) => i,
        None => return None,
    };
    proof {
        crate::text::lemma_find_from(lower@, base@, 0);
        assert(matches_at(lower@, base@, idx as int));
    }
    let total = lower.len();
    assert(idx + b@.len() <= total);
    let cut = idx + b.len();
    let after = slice_chars(lower, cut, lower.len());
    assert(after@ =~= lower@.skip(cut as int));
    match parse_u32_chars(after.as_slice()) {
        Some(n) => {
            if n > 1 {
                let head = slice_chars(name, 0, cut);
                assert(head@ =~= name@.take(cut as int));
                let pad = zero_padded_chars(1, after.len());
                Some(concat_chars(head.as_slice(), pad.as_slice()))
            } else {
                None
            }
        },
        None => None,
    }
}

fn push_opt(out: &mut Vec<String>, o: Option<Vec<char>>)
    ensures
        o matches Some(v) ==> final(out)@.len() == old(out)@.len() + 1 && final(out)@.last()@ == v@
            && final(out)@.drop_last() == old(out)@,
        o is None ==> final(out)@ == old(out)@,
{
    match o {
        Some(v) => out.push(string_of(v.as_slice())),
        None => {},
    }
}

/// The names (in the directory of `path`) that the first volume of the set
/// that `path` belongs to may have, in the order in which they are tried; the
/// first one that exists is the first volume. Empty when `path` has no file
/// name or names no later volume.
pub fn first_volume_candidates(path: &str) -> (r: Vec<String>)
    requires
        file_name(path@) matches Some(n) ==> (utf8_len(n) > 4 ==> boundary_from_end(n, 4)),
    ensures
        views(r@) == candidates_spec(path@),
{
    let p = chars_of(path);
    let mut out: Vec<String> = Vec::new();
    let name = match file_name_of(p.as_slice()) {
        Some(n) => n,
        None => {
            assert(views(out@) =~= Seq::<Seq<char>>::empty());
            return out;
        },
    };
    let lower = lower_chars(name.as_slice());
    let ns = name.as_slice();
    let ls = lower.as_slice();
    let ghost n = name@;
    let a = rar5_candidate(ns, ls);
    push_opt(&mut out, a);
    assert(views(out@) =~= opt_seq(rar5_first(n)));
    let b = rar4_candidate(ns, ls);
    push_opt(&mut out, b);
    assert(views(out@) =~= opt_seq(rar5_first(n)) + opt_seq(rar4_first(n)));
    let c = numbered_candidate(ns, ls, ".7z.");
    push_opt(&mut out, c);
    assert(views(out@) =~= opt_seq(rar5_first(n)) + opt_seq(rar4_first(n)) + opt_seq(
        numbered_first(n, ".7z."@),
    ));
    let d = numbered_candidate(ns, ls, ".zip.");
    push_opt(&mut out, d);
    assert(views(out@) =~= opt_seq(rar5_first(n)) + opt_seq(rar4_first(n)) + opt_seq(
        numbered_first(n, ".7z."@),
    ) + opt_seq(numbered_first(n, ".zip."@)));
    let e = zip_split_candidate(ns, ls);
    push_opt(&mut out, e);
    assert(views(out@) =~= first_volume_names(n));
    out
}

/// `1` written with `w` digits: `w - 1` zeros, then `1`.
pub open spec fn one_in_width(w: nat) -> Seq<char> {
    Seq::new((w - 1) as nat, |i: int| '0').push('1')
}

/// A later part of a RAR5 set names its first part with the number 1 in the
/// same width: for `stem.partN.rar` with `N > 1` written with `w` digits
/// (and no `.part` in the stem, in any letter case), the first volume is
/// `stem.part` + `0…01` (`w` digits) + `.rar`.
pub proof fn lemma_rar5_first_keeps_width(stem: Seq<char>, digits: Seq<char>)
    requires
        !contains(lower_seq(stem), ".part"@),
        digits.len() > 0,
        forall|i: int| 0 <= i < digits.len() ==> '0' <= #[trigger] digits[i] && digits[i] <= '9',
        1 < digits_value(digits) <= u32::MAX,
    ensures
        rar5_first(stem + ".part"@ + digits + ".rar"@) == Some(
            stem + ".part"@ + one_in_width(digits.len()) + ".rar"@,
        ),
{
    reveal_strlit(".part");
    reveal_strlit(".rar");
    let name = stem + ".part"@ + digits + ".rar"@;
    let lower = lower_seq(name);
    let ls = lower_seq(stem);
    assert(lower =~= ls + ".part"@ + digits + ".rar"@);
    let m = stem.len() as int;
    assert(lower.subrange(lower.len() - 4, lower.len() as int) =~= ".rar"@);
    assert(ends_with(lower, ".rar"@));
    assert(lower.subrange(m, m + 5) =~= ".part"@);
    assert(matches_at(lower, ".part"@, m));
    assert forall|j: int| 0 <= j < m implies !matches_at(lower, ".part"@, j) by {
        if matches_at(lower, ".part"@, j) {
            if j + 5 <= m {
                assert(ls.subrange(j, j + 5) =~= lower.subrange(j, j + 5));
                assert(matches_at(ls, ".part"@, j));
                assert(contains(ls, ".part"@));
            } else {
                assert(lower.subrange(j, j + 5)[m - j] == lower[m]);
                assert(lower[m] == '.');
            }
        }
    }
    lemma_find_from(lower, ".part"@, 0);
    assert(find(lower, ".part"@) == Some(m));
    let num = lower.subrange(m + 5, lower.len() - 4);
    assert(num =~= digits);
    assert(all_digits(digits));
    assert(parse_u32(num) == Some(digits_value(digits) as u32));
    assert(name.take(m) =~= stem);
    let w = digits.len();
    reveal_with_fuel(decimal, 2);
    assert(decimal(1) =~= seq!['1']);
    assert(zero_padded(1, w) =~= one_in_width(w));
}

} // verus!

verus! {

/// `name` in the directory of `path`: `path` with its file name replaced,
/// for a path that ends in its file name (`Path::parent` joined with `name`).
pub open spec fn beside(path: Seq<char>, name: Seq<char>) -> Seq<char> {
    path.take(name_start(path)) + name
}

/// `r` is what looking up the first volume of `path` may give when `present`
/// answers whether paths exist: the first candidate reported as existing,
/// all earlier ones having been reported absent; or `None`, all candidates
/// having been reported absent.
pub open spec fn first_volume_answer<F: Fn(&str) -> bool>(
    present: F,
    path: Seq<char>,
    r: Option<String>,
) -> bool {
    let names = candidates_spec(path);
    match r {
        Some(p) => exists|k: int|
            0 <= k < names.len() && p@ == beside(path, names[k]) && #[trigger] answered(
                present,
                beside(path, names[k]),
                true,
            ) && forall|j: int|
                0 <= j < k ==> #[trigger] answered(present, beside(path, names[j]), false),
        None => forall|j: int|
            0 <= j < names.len() ==> #[trigger] answered(present, beside(path, names[j]), false),
    }
}

/// The first volume of the set of split volumes that the file at `path`
/// belongs to, when `path` names a later volume and that first volume
/// exists (`present` checks whether a path exists); `None` otherwise.
///
/// The candidate names of [`candidates_spec`] are tried in order; the first
/// that `present` reports as existing is returned.
pub fn first_volume_path<F: Fn(&str) -> bool>(path: &str, present: F) -> (r: Option<String>)
    requires
        file_name(path@) matches Some(n) ==> (utf8_len(n) > 4 ==> boundary_from_end(n, 4)),
        forall|s: &str| #[trigger] present.requires((s,)),
    ensures
        first_volume_answer(present, path@, r),
{
    let names = first_volume_candidates(path);
    let p = chars_of(path);
    let start = name_start_of(p.as_slice());
    let dir = slice_chars(p.as_slice(), 0, start);
    assert(dir@ =~= path@.take(name_start(path@)));
    let mut k: usize = 0;
    while k < names.len()
        invariant
            k <= names@.len(),
            views(names@) == candidates_spec(path@),
            dir@ == path@.take(name_start(path@)),
            forall|s: &str| #[trigger] present.requires((s,)),
            forall|j: int|
                0 <= j < k ==> #[trigger] answered(
                    present,
                    beside(path@, candidates_spec(path@)[j]),
                    false,
                ),
        decreases names@.len() - k,
    {
        let name = chars_of(names[k].as_str());
        let full = concat_chars(dir.as_slice(), name.as_slice());
        let candidate = string_of(full.as_slice());
        assert(candidate@ == beside(path@, candidates_spec(path@)[k as int]));
        let c = candidate.as_str();
        let found = present(c);
        if found {
            assert(answered(present, beside(path@, candidates_spec(path@)[k as int]), true));
            return Some(candidate);
        }
        assert(answered(present, beside(path@, candidates_spec(path@)[k as int]), false));
        k += 1;
    }
    None
}

/// Number of decimal digits at the end of `s`.
pub open spec fn trailing_digits(s: Seq<char>) -> nat
    decreases s.len(),
{
    if s.len() > 0 && is_digit(s.last()) {
        1 + trailing_digits(s.drop_last())
    } else {
        0
    }
}

/// `xxx.NNN` split into `("xxx.", "NNN")`: the name must end in digits,
/// hold something before them, and have a `.` right before them.
pub open spec fn numeric_suffix_spec(s: Seq<char>) -> Option<(Seq<char>, Seq<char>)> {
    let k = trailing_digits(s);
    if k == 0 || k == s.len() {
        None
    } else {
        let base = s.take(s.len() - k);
        if base.last() == '.' {
            Some((base, s.skip(s.len() - k)))
        } else {
            None
        }
    }
}

/// `xxx.zNN` split into `("xxx", "NN")` at the last `.z`, when what follows
/// is a non-empty run of digits.
pub open spec fn z_suffix_spec(s: Seq<char>) -> Option<(Seq<char>, Seq<char>)> {
    match rfind(s, ".z"@) {
        Some(i) => {
            let after = s.skip(i + 2);
            if all_digits(after) && after.len() > 0 {
                Some((s.take(i), after))
            } else {
                None
            }
        },
        None => None,
    }
}

proof fn lemma_trailing_digits(s: Seq<char>)
    ensures
        trailing_digits(s) <= s.len(),
        all_digits(s.skip(s.len() - trailing_digits(s))),
        trailing_digits(s) < s.len() ==> !is_digit(s[s.len() - trailing_digits(s) - 1]),
    decreases s.len(),
{
    if s.len() > 0 && is_digit(s.last()) {
        lemma_trailing_digits(s.drop_last());
        let k = trailing_digits(s.drop_last());
        assert forall|i: int| 0 <= i < s.skip(s.len() - (k + 1)).len() implies is_digit(
            #[trigger] s.skip(s.len() - (k + 1))[i],
        ) by {
            if i < k {
                assert(s.skip(s.len() - (k + 1))[i] == s.drop_last().skip(s.drop_last().len() - k)[i]);
            }
        }
        if k < s.drop_last().len() {
            assert(s[s.len() - (k + 1) - 1] == s.drop_last()[s.drop_last().len() - k - 1]);
        }
    } else {
        assert(s.skip(s.len() as int) =~= Seq::<char>::empty());
    }
}

/// Splits a lower-cased volume name `xxx.NNN` into its base `xxx.` and its
/// number `NNN`.
pub fn find_numeric_suffix(lower: &str) -> (r: Option<(&str, &str)>)
    ensures
        r matches Some((a, b)) ==> numeric_suffix_spec(lower@) == Some((a@, b@)),
        r is None ==> numeric_suffix_spec(lower@) is None,
{
    let s = chars_of(lower);
    let mut end: usize = s.len();
    proof {
        lemma_trailing_digits(s@);
    }
    while end > 0 && '0' <= s[end - 1] && s[end - 1] <= '9'
        invariant
            end <= s@.len(),
            s@ == lower@,
            trailing_digits(s@) <= s@.len(),
            s@.len() - trailing_digits(s@) <= end,
            all_digits(s@.skip(end as int)),
            trailing_digits(s@) < s@.len() ==> !is_digit(s@[s@.len() - trailing_digits(s@) - 1]),
        decreases end,
    {
        assert(s@.skip(end - 1) =~= seq![s@[end - 1]] + s@.skip(end as int));
        end -= 1;
    }
    assert(end == s@.len() - trailing_digits(s@)) by {
        if end > s@.len() - trailing_digits(s@) {
            assert(s@.skip(s@.len() - trailing_digits(s@))[end - 1 - (s@.len() - trailing_digits(
                s@,
            ))] == s@[end - 1]);
        }
    }
    if end == s.len() || end == 0 {
        return None;
    }
    if s[end - 1] != '.' {
        return None;
    }
    let base = lower.substring_char(0, end);
    let num = lower.substring_char(end, s.len());
    assert(base@ =~= s@.take(end as int));
    assert(num@ =~= s@.skip(end as int));
    Some((base, num))
}

/// Splits a lower-cased volume name `xxx.zNN` into `xxx` and `NN`.
pub fn find_z_suffix(lower: &str) -> (r: Option<(&str, &str)>)
    ensures
        r matches Some((a, b)) ==> z_suffix_spec(lower@) == Some((a@, b@)),
        r is None ==> z_suffix_spec(lower@) is None,
{
    let s = chars_of(lower);
    let pat = lit(".z");
    let i = match rfind_chars(s.as_slice(), pat.as_slice()) {
        Some(i) => i,
        None => return None,
    };
    proof {
        reveal_strlit(".z");
        lemma_rfind_match(s@, ".z"@, s@.len() - 2);
    }
    let total = s.len();
    assert(i + 2 <= total);
    let after = slice_chars(s.as_slice(), i + 2, total);
    assert(after@ =~= s@.skip(i + 2));
    if all_digit_chars(after.as_slice()) && after.len() > 0 {
        let a = lower.substring_char(0, i);
        let b = lower.substring_char(i + 2, total);
        assert(a@ =~= s@.take(i as int));
        assert(b@ =~= s@.skip(i + 2));
        Some((a, b))
    } else {
        None
    }
}

/// A position found by `rfind_upto` is a match.
proof fn lemma_rfind_match(s: Seq<char>, pat: Seq<char>, upto: int)
    ensures
        crate::text::rfind_upto(s, pat, upto) matches Some(i) ==> matches_at(s, pat, i),
    decreases upto + 1,
{
    if upto >= 0 && !matches_at(s, pat, upto) {
        lemma_rfind_match(s, pat, upto - 1);
    }
}

/// Name of volume `n` of a numbered set: the base followed by `n` padded with
/// zeros to `width` digits (`xxx.7z.` + `002`).
pub fn numbered_volume_name(base: &str, n: u32, width: usize) -> (r: String)
    ensures
        r@ == base@ + zero_padded(n as nat, width as nat),
{
    let b = chars_of(base);
    let d = zero_padded_chars(n as u64, width);
    let v = concat_chars(b.as_slice(), d.as_slice());
    string_of(v.as_slice())
}

/// Name of data volume `n` of a classic ZIP split set (`xxx` + `.z` + `02`).
pub fn z_volume_name(base: &str, n: u32, width: usize) -> (r: String)
    ensures
        r@ == base@ + ".z"@ + zero_padded(n as nat, width as nat),
{
    let mut b = chars_of(base);
    push_str(&mut b, ".z");
    let d = zero_padded_chars(n as u64, width);
    let v = concat_chars(b.as_slice(), d.as_slice());
    string_of(v.as_slice())
}

/// Why a file cannot start a set of split volumes.
#[derive(Debug, Clone, Copy, PartialEq, Eq, Structural)]
pub enum VolumeError {
    /// The name has no volume number.
    NotSplit,
    /// The volume number is not 1.
    NotFirst,
}

/// The base and number width of the first volume `xxx.NNN` of a numbered set
/// (its number must be 1).
pub open spec fn first_volume_layout_spec(name: Seq<char>) -> Result<(Seq<char>, nat), VolumeError> {
    match numeric_suffix_spec(lower_seq(name)) {
        Some((_, num)) => if parse_u32(num) == Some(1u32) {
            Ok((name.take(name.len() - num.len()), num.len()))
        } else {
            Err(VolumeError::NotFirst)
        },
        None => Err(VolumeError::NotSplit),
    }
}

/// The base name (as written, not lower-cased) and number width of the
/// first volume of a numbered split set; the following volumes are named by
/// [`numbered_volume_name`] with the same base and width.
pub fn first_volume_layout(name: &str) -> (r: Result<(String, usize), VolumeError>)
    ensures
        r matches Ok((b, w)) ==> first_volume_layout_spec(name@) == Ok::<(Seq<char>, nat), VolumeError>((b@, w as nat)),
        r matches Err(e) ==> first_volume_layout_spec(name@) == Err::<(Seq<char>, nat), VolumeError>(e),
{
    let c = chars_of(name);
    let l = lower_chars(c.as_slice());
    let lower = string_of(l.as_slice());
    match find_numeric_suffix(lower.as_str()) {
        Some((_base, num)) => {
            let nc = chars_of(num);
            match parse_u32_chars(nc.as_slice()) {
                Some(v) => {
                    if v != 1 {
                        return Err(VolumeError::NotFirst);
                    }
                },
                None => {
                    return Err(VolumeError::NotFirst);
                },
            }
            let width = nc.len();
            proof {
                lemma_trailing_digits(l@);
            }
            let b = slice_chars(c.as_slice(), 0, c.len() - width);
            assert(b@ =~= name@.take(name@.len() - width));
            Ok((string_of(b.as_slice()), width))
        },
        None => Err(VolumeError::NotSplit),
    }
}

/// Digits whose value is 0 are all `0`.
proof fn lemma_zero_digits(s: Seq<char>)
    requires
        all_digits(s),
        digits_value(s) == 0,
    ensures
        s =~= Seq::new(s.len(), |i: int| '0'),
    decreases s.len(),
{
    if s.len() > 0 {
        let d = ((s.last() as int) - ('0' as int)) as nat;
        assert(is_digit(s[s.len() - 1]));
        assert(digits_value(s) == digits_value(s.drop_last()) * 10 + d);
        assert(all_digits(s.drop_last())) by {
            assert forall|i: int| 0 <= i < s.drop_last().len() implies is_digit(
                #[trigger] s.drop_last()[i],
            ) by {
                assert(s.drop_last()[i] == s[i]);
            }
        }
        lemma_zero_digits(s.drop_last());
        assert forall|i: int| 0 <= i < s.len() implies s[i] == '0' by {
            if i < s.len() - 1 {
                assert(s[i] == s.drop_last()[i]);
            }
        }
    }
}

/// Digits whose value is 1 are `1` padded with zeros to their length.
proof fn lemma_one_digits(s: Seq<char>)
    requires
        s.len() > 0,
        all_digits(s),
        digits_value(s) == 1,
    ensures
        s == zero_padded(1, s.len()),
{
    let d = ((s.last() as int) - ('0' as int)) as nat;
    assert(is_digit(s[s.len() - 1]));
    assert(digits_value(s) == digits_value(s.drop_last()) * 10 + d);
    assert(d <= 9);
    assert(digits_value(s.drop_last()) == 0 && d == 1) by (nonlinear_arith)
        requires
            digits_value(s.drop_last()) * 10 + d == 1,
            d <= 9,
    ;
    assert(all_digits(s.drop_last())) by {
        assert forall|i: int| 0 <= i < s.drop_last().len() implies is_digit(
            #[trigger] s.drop_last()[i],
        ) by {
            assert(s.drop_last()[i] == s[i]);
        }
    }
    lemma_zero_digits(s.drop_last());
    assert(decimal(1) =~= seq!['1']);
    assert(s.last() == '1');
    if s.len() > 1 {
        assert(s =~= Seq::new((s.len() - 1) as nat, |i: int| '0') + seq!['1']);
    } else {
        assert(s =~= seq!['1']);
    }
}

/// The first volume of a numbered set is named again by
/// [`numbered_volume_name`] from the layout that [`first_volume_layout`]
/// reads off it: its base followed by volume number 1 at its width.
pub proof fn lemma_first_volume_round_trip(name: Seq<char>)
    requires
        first_volume_layout_spec(name) is Ok,
    ensures
        ({
            let (base, width) = first_volume_layout_spec(name)->Ok_0;
            base + zero_padded(1, width) == name
        }),
{
    let l = lower_seq(name);
    lemma_trailing_digits(l);
    let k = trailing_digits(l);
    let num = l.skip(l.len() - k);
    assert(numeric_suffix_spec(l) == Some((l.take(l.len() - k), num)));
    assert(parse_u32(num) == Some(1u32));
    assert(is_digit(num[0]));
    assert(num[0] != '+');
    assert(digits_value(num) == 1);
    lemma_one_digits(num);
    let tail = name.skip(name.len() - k);
    assert(tail =~= num) by {
        assert forall|i: int| 0 <= i < tail.len() implies tail[i] == num[i] by {
            assert(num[i] == l[name.len() - k + i]);
            assert(l[name.len() - k + i] == ascii_lower(name[name.len() - k + i]));
            assert(is_digit(num[i]));
        }
    }
    assert(name.take(name.len() - k) + tail =~= name);
}

/// The base `xxx` (as written, not lower-cased) and number width of the data
/// volume `xxx.zNN` of a classic ZIP split set; the following data volumes
/// are named by [`z_volume_name`].
pub open spec fn z_layout_spec(name: Seq<char>) -> Option<(Seq<char>, nat)> {
    match z_suffix_spec(lower_seq(name)) {
        Some((_, num)) => Some((name.take(name.len() - num.len() - 2), num.len())),
        None => None,
    }
}

/// See [`z_layout_spec`].
pub fn z_volume_layout(name: &str) -> (r: Option<(String, usize)>)
    ensures
        r matches Some((b, w)) ==> z_layout_spec(name@) == Some((b@, w as nat)),
        r is None ==> z_layout_spec(name@) is None,
{
    let c = chars_of(name);
    let l = lower_chars(c.as_slice());
    let lower = string_of(l.as_slice());
    match find_z_suffix(lower.as_str()) {
        Some((_base, num)) => {
            let nc = chars_of(num);
            let width = nc.len();
            proof {
                reveal_strlit(".z");
                lemma_rfind_match(l@, ".z"@, l@.len() - 2);
            }
            assert(width + 2 <= c@.len());
            let b = slice_chars(c.as_slice(), 0, c.len() - width - 2);
            assert(b@ =~= name@.take(name@.len() - width - 2));
            Some((string_of(b.as_slice()), width))
        },
        None => None,
    }
}

// ---------------------------------------------------------------------------
// Offsets in a set of volumes read as one stream
// ---------------------------------------------------------------------------

/// Sum of the first `k` sizes.
pub open spec fn prefix_sum(sizes: Seq<u64>, k: int) -> int
    decreases k,
{
    if k <= 0 {
        0
    } else {
        prefix_sum(sizes, k - 1) + sizes[k - 1]
    }
}

/// Position `pos` lies in volume `j`.
pub open spec fn in_volume(sizes: Seq<u64>, pos: int, j: int) -> bool {
    prefix_sum(sizes, j) <= pos < prefix_sum(sizes, j + 1)
}

proof fn lemma_prefix_sum_mono(sizes: Seq<u64>, i: int, j: int)
    requires
        0 <= i <= j <= sizes.len(),
    ensures
        prefix_sum(sizes, i) <= prefix_sum(sizes, j),
    decreases j - i,
{
    if i < j {
        lemma_prefix_sum_mono(sizes, i, j - 1);
    }
}

/// Total size of all volumes.
pub fn total_size(sizes: &[u64]) -> (r: u64)
    requires
        prefix_sum(sizes@, sizes@.len() as int) <= u64::MAX,
    ensures
        r == prefix_sum(sizes@, sizes@.len() as int),
{
    let mut acc: u64 = 0;
    let mut i: usize = 0;
    while i < sizes.len()
        invariant
            i <= sizes.len(),
            acc == prefix_sum(sizes@, i as int),
            prefix_sum(sizes@, sizes@.len() as int) <= u64::MAX,
        decreases sizes.len() - i,
    {
        proof {
            lemma_prefix_sum_mono(sizes@, i + 1, sizes@.len() as int);
        }
        acc = acc + sizes[i];
        i += 1;
    }
    acc
}

/// The volume that holds position `pos` of the joined stream and the offset
/// in it: the volume whose range `[start, start + size)` contains `pos`; the
/// end of the stream lies at the end of the last volume; past it there is no
/// volume.
pub fn locate(sizes: &[u64], pos: u64) -> (r: Option<(usize, u64)>)
    requires
        sizes@.len() > 0,
        prefix_sum(sizes@, sizes@.len() as int) <= u64::MAX,
    ensures
        r matches Some((i, off)) ==> {
            ||| (i < sizes@.len() && in_volume(sizes@, pos as int, i as int) && off == pos
                - prefix_sum(sizes@, i as int) && forall|j: int|
                0 <= j < i ==> !#[trigger] in_volume(sizes@, pos as int, j))
            ||| (pos == prefix_sum(sizes@, sizes@.len() as int) && i == sizes@.len() - 1 && off
                == sizes@[i as int] && forall|j: int|
                0 <= j < sizes@.len() ==> !#[trigger] in_volume(sizes@, pos as int, j))
        },
        r is None <==> pos > prefix_sum(sizes@, sizes@.len() as int),
{
    let mut acc: u64 = 0;
    let mut i: usize = 0;
    while i < sizes.len()
        invariant
            i <= sizes.len(),
            acc == prefix_sum(sizes@, i as int),
            prefix_sum(sizes@, sizes@.len() as int) <= u64::MAX,
            pos >= acc,
            forall|j: int| 0 <= j < i ==> !#[trigger] in_volume(sizes@, pos as int, j),
        decreases sizes.len() - i,
    {
        proof {
            lemma_prefix_sum_mono(sizes@, i + 1, sizes@.len() as int);
        }
        let size = sizes[i];
        if pos < acc + size {
            return Some((i, pos - acc));
        }
        acc = acc + size;
        i += 1;
    }
    if pos == acc {
        let last = sizes.len() - 1;
        Some((last, sizes[last]))
    } else {
        None
    }
}

/// Where a seek in the joined stream of volumes starts from.
#[derive(Debug, Clone, Copy, PartialEq, Eq, Structural)]
pub enum SeekOrigin {
    /// From the start of the stream.
    Start(u64),
    /// From the current position.
    Current(i64),
    /// From the end of the stream.
    End(i64),
}

/// The position a seek asks for, as a signed number: `Start` offsets above
/// `i64::MAX` read as negative (they are taken as `i64`).
pub open spec fn seek_request(origin: SeekOrigin, position: u64, total: u64) -> int {
    match origin {
        SeekOrigin::Start(o) => if o <= i64::MAX {
            o as int
        } else {
            o - 0x1_0000_0000_0000_0000
        },
        SeekOrigin::Current(d) => position + d,
        SeekOrigin::End(d) => total + d,
    }
}

/// The absolute position a seek moves to, from the current `position` and
/// the `total` size of the stream; `None` when it would be negative.
pub fn seek_target(origin: SeekOrigin, position: u64, total: u64) -> (r: Option<u64>)
    requires
        position <= i64::MAX,
        total <= i64::MAX,
        origin matches SeekOrigin::Current(d) ==> i64::MIN <= position + d <= i64::MAX,
        origin matches SeekOrigin::End(d) ==> i64::MIN <= total + d <= i64::MAX,
    ensures
        seek_request(origin, position, total) < 0 ==> r is None,
        seek_request(origin, position, total) >= 0 ==> r == Some(
            seek_request(origin, position, total) as u64,
        ),
{
    let target: i64 = match origin {
        SeekOrigin::Start(o) => {
            if o <= i64::MAX as u64 {
                o as i64
            } else {
                -1
            }
        },
        SeekOrigin::Current(d) => position as i64 + d,
        SeekOrigin::End(d) => total as i64 + d,
    };
    if target < 0 {
        None
    } else {
        Some(target as u64)
    }
}

/// A file name of the form `xxx.7z.NNN` (case aside): digits, and only
/// digits, follow the first `.7z.`.
pub open spec fn sevenz_volume_spec(name: Seq<char>) -> bool {
    let l = lower_seq(name);
    match find(l, ".7z."@) {
        Some(i) => {
            let after = l.skip(i + 4);
            after.len() > 0 && all_digits(after)
        },
        None => false,
    }
}

/// Whether the file name `name` is a volume of a split 7z set (see
/// [`sevenz_volume_spec`]); such a file is read joined with its following
/// volumes.
pub fn is_sevenz_volume_name(name: &str) -> (r: bool)
    ensures
        r == sevenz_volume_spec(name@),
{
    let c = chars_of(name);
    let l = lower_chars(c.as_slice());
    let pat = chars_of(".7z.");
    proof {
        reveal_strlit(".7z.");
        lemma_find_from(l@, pat@, 0);
    }
    assert(pat@.len() == 4);
    let n = l.len();
    match find_chars(l.as_slice(), pat.as_slice()) {
        Some(i) => {
            assert(find(l@, pat@) == find_from(l@, pat@, 0));
            assert(matches_at(l@, pat@, i as int));
            assert(i + 4 <= n);
            let after = slice_chars(l.as_slice(), i + 4, l.len());
            assert(after@ =~= l@.skip(i + 4));
            after.len() > 0 && all_digit_chars(after.as_slice())
        },
        None => false,
    }
}

} // verus!
