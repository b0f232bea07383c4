//! What the program is asked to do when it is started from a file manager:
//! the command-line arguments name an action and an archive.

use vstd::prelude::*;
use crate::text::{
    chars_eq, chars_of, ends_with, ends_with_str, lower_chars, lower_seq, views,
};

verus! {

/// An action requested at start-up.
#[derive(Debug, Clone, PartialEq, Eq)]
pub enum OpenAction {
    /// Preview the archive.
    Open { path: String },
    /// Extract next to the archive.
    ExtractHere { path: String },
    /// Extract into a sub-directory named after the archive.
    ExtractToSubdir { path: String },
    /// Compress the path.
    Compress { path: String },
}

/// The kind of an action.
#[derive(Debug, Clone, Copy, PartialEq, Eq, Structural)]
pub enum ActionKind {
    Open,
    ExtractHere,
    ExtractToSubdir,
    Compress,
}

/// The kind of an action value.
pub open spec fn action_kind(a: OpenAction) -> ActionKind {
    match a {
        OpenAction::Open { .. } => ActionKind::Open,
        OpenAction::ExtractHere { .. } => ActionKind::ExtractHere,
        OpenAction::ExtractToSubdir { .. } => ActionKind::ExtractToSubdir,
        OpenAction::Compress { .. } => ActionKind::Compress,
    }
}

/// The path of an action value.
pub open spec fn action_path(a: OpenAction) -> Seq<char> {
    match a {
        OpenAction::Open { path } => path@,
        OpenAction::ExtractHere { path } => path@,
        OpenAction::ExtractToSubdir { path } => path@,
        OpenAction::Compress { path } => path@,
    }
}

/// A lower-cased name with an archive extension.
pub open spec fn has_archive_ext(lower: Seq<char>) -> bool {
    ends_with(lower, ".zip"@) || ends_with(lower, ".7z"@) || ends_with(lower, ".rar"@) || ends_with(
        lower,
        ".tar"@,
    ) || ends_with(lower, ".gz"@) || ends_with(lower, ".gzip"@) || ends_with(lower, ".bz2"@)
        || ends_with(lower, ".xz"@) || ends_with(lower, ".zst"@) || ends_with(lower, ".zstd"@)
        || ends_with(lower, ".tgz"@) || ends_with(lower, ".tbz2"@) || ends_with(lower, ".tbz"@)
        || ends_with(lower, ".txz"@) || ends_with(lower, ".tzst"@) || ends_with(lower, ".tzs"@)
}

/// The action found from argument `i` on (the program name at 0 is not
/// looked at), as its kind and the position of its path: `--extract-here`
/// and `--extract-to-subdir` take the next argument; `--compress` takes the
/// next argument when it exists, else goes on after it; any other argument
/// with an archive extension that is a file is opened; flags without a
/// following argument end the search.
pub open spec fn action_from(args: Seq<Seq<char>>, exists: Seq<bool>, is_file: Seq<bool>, i: int) -> Option<(ActionKind, int)>
    decreases args.len() - i,
{
    if i < 1 || i >= args.len() {
        None
    } else if args[i] == "--extract-here"@ {
        if i + 1 < args.len() {
            Some((ActionKind::ExtractHere, i + 1))
        } else {
            None
        }
    } else if args[i] == "--extract-to-subdir"@ {
        if i + 1 < args.len() {
            Some((ActionKind::ExtractToSubdir, i + 1))
        } else {
            None
        }
    } else if args[i] == "--compress"@ {
        if i + 1 < args.len() {
            if exists[i + 1] {
                Some((ActionKind::Compress, i + 1))
            } else {
                action_from(args, exists, is_file, i + 2)
            }
        } else {
            None
        }
    } else if has_archive_ext(lower_seq(args[i])) && is_file[i] {
        Some((ActionKind::Open, i))
    } else {
        action_from(args, exists, is_file, i + 1)
    }
}

/// A path given on its own whose name ends, in any letter case, with an
/// archive extension (`.zip`, `.7z`, `.rar`, `.tar`, `.gz`, `.gzip`, `.bz2`,
/// `.xz`, `.zst`, `.zstd`, `.tgz`, `.tbz2`, `.tbz`, `.txz`, `.tzst`, `.tzs`)
/// and that is a file is opened: the start-up action is to open it.
pub proof fn lemma_archive_path_opened(
    prog: Seq<char>,
    p: Seq<char>,
    ext: Seq<char>,
    exists: Seq<bool>,
    is_file: Seq<bool>,
)
    requires
        ext == ".zip"@ || ext == ".7z"@ || ext == ".rar"@ || ext == ".tar"@ || ext == ".gz"@ || ext
            == ".gzip"@ || ext == ".bz2"@ || ext == ".xz"@ || ext == ".zst"@ || ext == ".zstd"@
            || ext == ".tgz"@ || ext == ".tbz2"@ || ext == ".tbz"@ || ext == ".txz"@ || ext
            == ".tzst"@ || ext == ".tzs"@,
        ends_with(lower_seq(p), ext),
        exists.len() == 2,
        is_file.len() == 2,
        is_file[1],
    ensures
        action_from(seq![prog, p], exists, is_file, 1) == Some((ActionKind::Open, 1int)),
{
    reveal_strlit(".zip");
    reveal_strlit(".7z");
    reveal_strlit(".rar");
    reveal_strlit(".tar");
    reveal_strlit(".gz");
    reveal_strlit(".gzip");
    reveal_strlit(".bz2");
    reveal_strlit(".xz");
    reveal_strlit(".zst");
    reveal_strlit(".zstd");
    reveal_strlit(".tgz");
    reveal_strlit(".tbz2");
    reveal_strlit(".tbz");
    reveal_strlit(".txz");
    reveal_strlit(".tzst");
    reveal_strlit(".tzs");
    reveal_strlit("--extract-here");
    reveal_strlit("--extract-to-subdir");
    reveal_strlit("--compress");
    let l = lower_seq(p);
    let k = l.len() - ext.len();
    assert(ext[0] == '.');
    assert(l.subrange(k, l.len() as int)[0] == l[k]);
    assert(l[k] == '.');
    assert(p[k] == '.');
    let args = seq![prog, p];
    assert(args[1] == p);
    assert(p != "--extract-here"@);
    assert(p != "--extract-to-subdir"@);
    assert(p != "--compress"@);
    assert(has_archive_ext(l));
}

fn is_lit(a: &String, lit: &str) -> (r: bool)
    ensures
        r == (a@ == lit@),
{
    let c = chars_of(a.as_str());
    let l = chars_of(lit);
    chars_eq(c.as_slice(), l.as_slice())
}

fn archive_ext(arg: &String) -> (r: bool)
    ensures
        r == has_archive_ext(lower_seq(arg@)),
{
    let c = chars_of(arg.as_str());
    let l = lower_chars(c.as_slice());
    let s = l.as_slice();
    ends_with_str(s, ".zip") || ends_with_str(s, ".7z") || ends_with_str(s, ".rar")
        || ends_with_str(s, ".tar") || ends_with_str(s, ".gz") || ends_with_str(s, ".gzip")
        || ends_with_str(s, ".bz2") || ends_with_str(s, ".xz") || ends_with_str(s, ".zst")
        || ends_with_str(s, ".zstd") || ends_with_str(s, ".tgz") || ends_with_str(s, ".tbz2")
        || ends_with_str(s, ".tbz") || ends_with_str(s, ".txz") || ends_with_str(s, ".tzst")
        || ends_with_str(s, ".tzs")
}

/// The start-up action named by the arguments `args` (the program name
/// first). `exists[i]` and `is_file[i]` tell whether `args[i]` names an
/// existing path and an existing file.
pub fn parse_open_action(args: &[String], exists: &[bool], is_file: &[bool]) -> (r: Option<OpenAction>)
    requires
        exists@.len() == args@.len(),
        is_file@.len() == args@.len(),
    ensures
        action_from(views(args@), exists@, is_file@, 1) matches Some((k, j)) ==> (r matches Some(a)
            && action_kind(a) == k && action_path(a) == args@[j]@),
        action_from(views(args@), exists@, is_file@, 1) is None ==> r is None,
{
    let ghost av = views(args@);
    let mut i: usize = 1;
    while i < args.len()
        invariant
            1 <= i,
            av == views(args@),
            exists@.len() == args@.len(),
            is_file@.len() == args@.len(),
            action_from(av, exists@, is_file@, 1) == action_from(av, exists@, is_file@, i as int),
        decreases args.len() - i,
    {
        let arg = &args[i];
        assert(av[i as int] == arg@);
        if is_lit(arg, "--extract-here") {
            if i + 1 < args.len() {
                return Some(OpenAction::ExtractHere { path: args[i + 1].clone() });
            }
            return None;
        } else if is_lit(arg, "--extract-to-subdir") {
            if i + 1 < args.len() {
                return Some(OpenAction::ExtractToSubdir { path: args[i + 1].clone() });
            }
            return None;
        } else if is_lit(arg, "--compress") {
            if i + 1 < args.len() {
                if exists[i + 1] {
                    return Some(OpenAction::Compress { path: args[i + 1].clone() });
                }
                i += 2;
            } else {
                return None;
            }
        } else {
            if archive_ext(arg) && is_file[i] {
                return Some(OpenAction::Open { path: arg.clone() });
            }
            i += 1;
        }
    }
    None
}

} // verus!
