//! Messages exchanged with a user interface: requests, entries, progress
//! events, summaries, and stable error codes.

use vstd::prelude::*;
use crate::error::{error_text, ArchiveError};
use crate::safety::conflict_message;
use crate::state::{RegisterError, MAX_CONCURRENT_TASKS};
use crate::text::{
    chars_of, concat_chars, contains, contains_str, decimal, decimal_chars, lower_chars, lower_seq,
    matches_at, push_str, string_of,
};
use crate::types::{
    default_limits, ArchiveEntry, ExtractLimits, ExtractOptions, ExtractSummary, OverwritePolicy,
};

verus! {

/// A request to list an archive.
#[derive(Debug, Clone, PartialEq, Eq)]
pub struct ListRequest {
    pub path: String,
    pub password: Option<String>,
}

/// One entry of a listing.
#[derive(Debug, Clone, PartialEq, Eq)]
pub struct EntryDto {
    pub path: String,
    pub size: u64,
    pub compressed_size: u64,
    pub is_dir: bool,
    pub is_encrypted: bool,
    pub modified: Option<u64>,
}

impl EntryDto {
    /// The listing entry of an archive entry (all fields carried over).
    pub fn from_entry(e: ArchiveEntry) -> (r: EntryDto)
        ensures
            r.path == e.path,
            r.size == e.size,
            r.compressed_size == e.compressed_size,
            r.is_dir == e.is_dir,
            r.is_encrypted == e.is_encrypted,
            r.modified == e.modified,
    {
        EntryDto {
            path: e.path,
            size: e.size,
            compressed_size: e.compressed_size,
            is_dir: e.is_dir,
            is_encrypted: e.is_encrypted,
            modified: e.modified,
        }
    }
}

/// A request to extract an archive.
#[derive(Debug, Clone, PartialEq, Eq)]
pub struct ExtractRequest {
    pub task_id: String,
    pub source: String,
    pub dest: String,
    pub password: Option<String>,
    /// `"skip"`, `"overwrite"`, `"rename"` or `"error"`.
    pub overwrite: String,
    /// Only these entries (none or empty: all).
    pub entries: Option<Vec<String>>,
}

/// A request to create an archive.
#[derive(Debug, Clone, PartialEq, Eq)]
pub struct CreateRequest {
    pub task_id: String,
    pub dest: String,
    pub sources: Vec<CreateSourceDto>,
    pub password: Option<String>,
    pub level: Option<i32>,
}

/// One input of a creation request.
#[derive(Debug, Clone, PartialEq, Eq)]
pub struct CreateSourceDto {
    pub fs_path: String,
    pub archive_path: String,
}

/// Counters reported at the end of a task.
#[derive(Debug, Clone, PartialEq, Eq)]
pub struct SummaryDto {
    pub entries_extracted: usize,
    pub entries_skipped: usize,
    pub bytes_written: u64,
    pub cancelled: bool,
}

impl SummaryDto {
    /// The reported counters of a summary.
    pub fn from_summary(s: &ExtractSummary) -> (r: SummaryDto)
        ensures
            r.entries_extracted == s.entries_extracted,
            r.entries_skipped == s.entries_skipped,
            r.bytes_written == s.bytes_written,
            r.cancelled == s.cancelled,
    {
        SummaryDto {
            entries_extracted: s.entries_extracted,
            entries_skipped: s.entries_skipped,
            bytes_written: s.bytes_written,
            cancelled: s.cancelled,
        }
    }
}

/// A stable, serialisable error: `code` tells the interface what happened;
/// only `password_required` and `wrong_password` ask for a password.
#[derive(Debug, Clone, PartialEq, Eq)]
pub struct ArchiveErrorDto {
    pub code: String,
    pub message: String,
}

/// A streamed progress event.
#[derive(Debug, Clone, PartialEq, Eq)]
pub enum ProgressEvent {
    Started { total_entries: usize, total_bytes: u64 },
    EntryStart { index: usize, total: usize, path: String, size: u64 },
    EntryDone { index: usize },
    Bytes { processed: u64, total: u64, indeterminate: bool, speed: u64, eta_secs: Option<u64> },
    Finished { summary: SummaryDto },
    Cancelled,
    Error { error: ArchiveErrorDto },
}

/// The code that a message is classified as, by its (lower-cased) words.
pub open spec fn message_code(message: Seq<char>) -> Seq<char> {
    let l = lower_seq(message);
    if contains(l, "取消"@) || contains(l, "cancel"@) {
        "cancelled"@
    } else if contains(l, "password"@) || contains(l, "encrypt"@) || contains(l, "密码"@) {
        if contains(l, "wrong"@) || contains(l, "错误"@) || contains(l, "invalid"@) {
            "wrong_password"@
        } else {
            "password_required"@
        }
    } else if contains(l, "已存在"@) || contains(l, "conflict"@) || contains(l, "exist"@) {
        "conflict"@
    } else if contains(l, "format"@) || contains(l, "格式"@) || contains(l, "unsupport"@) {
        "unsupported"@
    } else if contains(l, "损坏"@) || contains(l, "corrupt"@) {
        "corrupt"@
    } else {
        "io"@
    }
}

/// The code of each error of the library. A `Rejected` error is a plain
/// message and is classified by [`message_code`].
pub open spec fn error_code(e: ArchiveError) -> Seq<char> {
    match e {
        ArchiveError::PasswordRequired => "password_required"@,
        ArchiveError::WrongPassword => "wrong_password"@,
        ArchiveError::Corrupt(_) => "corrupt"@,
        ArchiveError::Unsupported(_) => "unsupported"@,
        ArchiveError::UnknownFormat(_) => "unsupported"@,
        ArchiveError::PathTraversal(_) => "path_traversal"@,
        ArchiveError::PathTooLong { .. } => "path_too_long"@,
        ArchiveError::BombDetected { .. } => "bomb_detected"@,
        ArchiveError::FileTooLarge { .. } => "file_too_large"@,
        ArchiveError::TooManyEntries { .. } => "too_many_entries"@,
        ArchiveError::Cancelled => "cancelled"@,
        ArchiveError::Io(_) => "io"@,
        ArchiveError::Rejected(m) => message_code(m@),
    }
}

/// Only the two password errors of the library (and plain messages that
/// speak of passwords) are reported with a code that asks for a password.
pub proof fn lemma_password_codes(e: ArchiveError)
    ensures
        e is PasswordRequired ==> error_code(e) == "password_required"@,
        e is WrongPassword ==> error_code(e) == "wrong_password"@,
        error_code(e) == "password_required"@ || error_code(e) == "wrong_password"@ ==> (
        e is PasswordRequired || e is WrongPassword || e is Rejected),
{
    reveal_strlit("password_required");
    reveal_strlit("wrong_password");
    reveal_strlit("corrupt");
    reveal_strlit("unsupported");
    reveal_strlit("path_traversal");
    reveal_strlit("path_too_long");
    reveal_strlit("bomb_detected");
    reveal_strlit("file_too_large");
    reveal_strlit("too_many_entries");
    reveal_strlit("cancelled");
    reveal_strlit("io");
    let p = "password_required"@;
    let w = "wrong_password"@;
    match e {
        ArchiveError::Corrupt(_) => {
            assert("corrupt"@.len() != p.len() && "corrupt"@.len() != w.len());
        },
        ArchiveError::Unsupported(_) | ArchiveError::UnknownFormat(_) => {
            assert("unsupported"@.len() != p.len() && "unsupported"@.len() != w.len());
        },
        ArchiveError::PathTraversal(_) => {
            assert("path_traversal"@.len() != p.len() && "path_traversal"@[0] != w[0]);
        },
        ArchiveError::PathTooLong { .. } => {
            assert("path_too_long"@.len() != p.len() && "path_too_long"@.len() != w.len());
        },
        ArchiveError::BombDetected { .. } => {
            assert("bomb_detected"@.len() != p.len() && "bomb_detected"@.len() != w.len());
        },
        ArchiveError::FileTooLarge { .. } => {
            assert("file_too_large"@.len() != p.len() && "file_too_large"@[0] != w[0]);
        },
        ArchiveError::TooManyEntries { .. } => {
            assert("too_many_entries"@.len() != p.len() && "too_many_entries"@.len() != w.len());
        },
        ArchiveError::Cancelled => {
            assert("cancelled"@.len() != p.len() && "cancelled"@.len() != w.len());
        },
        ArchiveError::Io(_) => {
            assert("io"@.len() != p.len() && "io"@.len() != w.len());
        },
        _ => {},
    }
}

/// A pattern whose first character the prefix `a` never holds occurs in
/// `a + b` only inside `b`.
proof fn lemma_contains_after_prefix(a: Seq<char>, b: Seq<char>, pat: Seq<char>)
    requires
        pat.len() > 0,
        forall|i: int| 0 <= i < a.len() ==> a[i] != pat[0],
        contains(a + b, pat),
    ensures
        contains(b, pat),
{
    let s = a + b;
    let i = choose|i: int| matches_at(s, pat, i);
    assert(s.subrange(i, i + pat.len())[0] == s[i]);
    assert(i >= a.len());
    let j = i - a.len();
    assert(b.subrange(j, j + pat.len()) =~= s.subrange(i, i + pat.len()));
    assert(matches_at(b, pat, j));
}

/// ASCII lower-casing distributes over concatenation.
proof fn lemma_lower_concat(a: Seq<char>, b: Seq<char>)
    ensures
        lower_seq(a + b) == lower_seq(a) + lower_seq(b),
{
    assert(lower_seq(a + b) =~= lower_seq(a) + lower_seq(b));
}

/// A refused overwrite (the `Error` policy meeting an existing target) is
/// reported as a conflict, never as a cancellation or a password problem,
/// for every target path whose own words do not speak of cancelling or of
/// passwords.
pub proof fn lemma_conflict_reported(target: Seq<char>)
    requires
        !contains(lower_seq(target), "取消"@),
        !contains(lower_seq(target), "cancel"@),
        !contains(lower_seq(target), "password"@),
        !contains(lower_seq(target), "encrypt"@),
        !contains(lower_seq(target), "密码"@),
    ensures
        message_code(conflict_message(target)) == "conflict"@,
        forall|m: String|
            m@ == conflict_message(target) ==> #[trigger] error_code(ArchiveError::Rejected(m))
                == "conflict"@,
{
    let pre = "目标已存在: "@;
    reveal_strlit("目标已存在: ");
    reveal_strlit("取消");
    reveal_strlit("cancel");
    reveal_strlit("password");
    reveal_strlit("encrypt");
    reveal_strlit("密码");
    reveal_strlit("已存在");
    lemma_lower_concat(pre, target);
    let lp = lower_seq(pre);
    assert(lp =~= pre);
    let l = lower_seq(pre + target);
    assert(l == lp + lower_seq(target));
    if contains(l, "取消"@) {
        lemma_contains_after_prefix(lp, lower_seq(target), "取消"@);
    }
    if contains(l, "cancel"@) {
        lemma_contains_after_prefix(lp, lower_seq(target), "cancel"@);
    }
    if contains(l, "password"@) {
        lemma_contains_after_prefix(lp, lower_seq(target), "password"@);
    }
    if contains(l, "encrypt"@) {
        lemma_contains_after_prefix(lp, lower_seq(target), "encrypt"@);
    }
    if contains(l, "密码"@) {
        lemma_contains_after_prefix(lp, lower_seq(target), "密码"@);
    }
    assert(l.subrange(2, 5) =~= "已存在"@);
    assert(matches_at(l, "已存在"@, 2));
}

/// `anyhow::Error` is carried through as an opaque value.
#[verifier::external_type_specification]
#[verifier::external_body]
pub struct ExAnyhowError(anyhow::Error);

/// `anyhow::Error::to_string`: the text the error's `Display` shows. That
/// text comes from the wrapped error (for an OS error, from the system's
/// message for its code), so nothing is stated of it.
#[verifier::external_body]
fn anyhow_text(error: &anyhow::Error) -> (r: String) {
    error.to_string()
}

fn code_of(s: &str) -> (r: String)
    ensures
        r@ == s@,
{
    let c = chars_of(s);
    string_of(c.as_slice())
}

impl ArchiveErrorDto {
    /// An error with the given code and message.
    pub fn new(code: &str, message: String) -> (r: ArchiveErrorDto)
        ensures
            r.code@ == code@,
            r.message@ == message@,
    {
        ArchiveErrorDto { code: code_of(code), message }
    }

    /// Classifies a plain error message by its words: cancellation first,
    /// then passwords (wrong or missing), conflicts, unsupported formats,
    /// damage; anything else is `io`.
    pub fn from_message(message: &str) -> (r: ArchiveErrorDto)
        ensures
            r.code@ == message_code(message@),
            r.message@ == message@,
    {
        let c = chars_of(message);
        let l = lower_chars(c.as_slice());
        let s = l.as_slice();
        let code = if contains_str(s, "取消") || contains_str(s, "cancel") {
            "cancelled"
        } else if contains_str(s, "password") || contains_str(s, "encrypt") || contains_str(s, "密码") {
            if contains_str(s, "wrong") || contains_str(s, "错误") || contains_str(s, "invalid") {
                "wrong_password"
            } else {
                "password_required"
            }
        } else if contains_str(s, "已存在") || contains_str(s, "conflict") || contains_str(s, "exist") {
            "conflict"
        } else if contains_str(s, "format") || contains_str(s, "格式") || contains_str(s, "unsupport") {
            "unsupported"
        } else if contains_str(s, "损坏") || contains_str(s, "corrupt") {
            "corrupt"
        } else {
            "io"
        };
        ArchiveErrorDto { code: code_of(code), message: string_of(c.as_slice()) }
    }

    /// The error of the library with its own code and its message.
    pub fn from_archive_error(error: &ArchiveError) -> (r: ArchiveErrorDto)
        ensures
            r.code@ == error_code(*error),
            r.message@ == error_text(*error),
    {
        let message = error.message();
        let code = match error {
            ArchiveError::PasswordRequired => code_of("password_required"),
            ArchiveError::WrongPassword => code_of("wrong_password"),
            ArchiveError::Corrupt(_) => code_of("corrupt"),
            ArchiveError::Unsupported(_) => code_of("unsupported"),
            ArchiveError::UnknownFormat(_) => code_of("unsupported"),
            ArchiveError::PathTraversal(_) => code_of("path_traversal"),
            ArchiveError::PathTooLong { .. } => code_of("path_too_long"),
            ArchiveError::BombDetected { .. } => code_of("bomb_detected"),
            ArchiveError::FileTooLarge { .. } => code_of("file_too_large"),
            ArchiveError::TooManyEntries { .. } => code_of("too_many_entries"),
            ArchiveError::Cancelled => code_of("cancelled"),
            ArchiveError::Io(_) => code_of("io"),
            ArchiveError::Rejected(m) => ArchiveErrorDto::from_message(m.as_str()).code,
        };
        ArchiveErrorDto { code, message }
    }

    /// The report of an error whose `Display` text is `text`. `library` is
    /// the error of this library that it carries, if any: such an error
    /// keeps its own code and message. Any other error is classified by its
    /// text (see [`ArchiveErrorDto::from_message`]).
    pub fn from_text(text: &str, library: Option<&ArchiveError>) -> (r: ArchiveErrorDto)
        ensures
            library matches Some(e) ==> r.code@ == error_code(*e) && r.message@ == error_text(*e),
            library is None ==> r.message@ == text@ && r.code@ == message_code(text@),
    {
        match library {
            Some(e) => ArchiveErrorDto::from_archive_error(e),
            None => ArchiveErrorDto::from_message(text),
        }
    }

    /// The error an operation failed with. `library` is the error of this
    /// library that `error` carries, if any (what downcasting `error`
    /// gives): such an error keeps its own code and message. Any other error
    /// is classified by its `Display` text (see [`ArchiveErrorDto::from_text`]);
    /// that text depends on the wrapped error and the machine, so of it only
    /// the classification is stated.
    pub fn from_anyhow(error: &anyhow::Error, library: Option<&ArchiveError>) -> (r: ArchiveErrorDto)
        ensures
            library matches Some(e) ==> r.code@ == error_code(*e) && r.message@ == error_text(*e),
            library is None ==> r.code@ == message_code(r.message@),
    {
        match library {
            Some(e) => ArchiveErrorDto::from_archive_error(e),
            None => {
                let text = anyhow_text(error);
                ArchiveErrorDto::from_text(text.as_str(), None)
            },
        }
    }
}

/// The policy a name stands for: `overwrite`, `rename`, `error`; anything
/// else means `Skip`.
pub open spec fn overwrite_spec(s: Seq<char>) -> OverwritePolicy {
    if s == "overwrite"@ {
        OverwritePolicy::Overwrite
    } else if s == "rename"@ {
        OverwritePolicy::Rename
    } else if s == "error"@ {
        OverwritePolicy::Error
    } else {
        OverwritePolicy::Skip
    }
}

/// Reads an overwrite policy name (see [`overwrite_spec`]).
pub fn parse_overwrite(s: &str) -> (r: OverwritePolicy)
    ensures
        r == overwrite_spec(s@),
{
    let c = chars_of(s);
    let o = chars_of("overwrite");
    let rn = chars_of("rename");
    let e = chars_of("error");
    if crate::text::chars_eq(c.as_slice(), o.as_slice()) {
        OverwritePolicy::Overwrite
    } else if crate::text::chars_eq(c.as_slice(), rn.as_slice()) {
        OverwritePolicy::Rename
    } else if crate::text::chars_eq(c.as_slice(), e.as_slice()) {
        OverwritePolicy::Error
    } else {
        OverwritePolicy::Skip
    }
}

/// The extraction options of a request: its password and overwrite policy,
/// defaults otherwise.
pub fn parse_options(req: &ExtractRequest) -> (r: ExtractOptions)
    ensures
        r.password == req.password,
        r.overwrite == overwrite_spec(req.overwrite@),
        r.keep_dir_mtime,
        r.skip_symlinks,
        r.limits == default_limits(),
{
    let overwrite = parse_overwrite(req.overwrite.as_str());
    ExtractOptions {
        password: req.password.clone(),
        overwrite,
        keep_dir_mtime: true,
        skip_symlinks: true,
        limits: ExtractLimits::default(),
    }
}

/// A copy of an error report.
fn copy_dto(e: &ArchiveErrorDto) -> (r: ArchiveErrorDto)
    ensures
        r.code@ == e.code@,
        r.message@ == e.message@,
{
    ArchiveErrorDto { code: code_of(e.code.as_str()), message: code_of(e.message.as_str()) }
}

/// The report of a task that could not be registered: a taken id, or a full
/// table (with the limit and the number of running tasks).
pub fn register_error_dto(error: &RegisterError) -> (r: ArchiveErrorDto)
    ensures
        error is Duplicate ==> r.code@ == "duplicate_task"@ && r.message@ == "任务 ID 已存在"@,
        error matches RegisterError::TooMany(n) ==> r.code@ == "too_many_tasks"@ && r.message@
            == "并发任务已达上限 "@ + decimal(MAX_CONCURRENT_TASKS as nat) + "（当前 "@ + decimal(
            n as nat,
        ) + "）"@,
{
    match error {
        RegisterError::Duplicate(_) => ArchiveErrorDto::new("duplicate_task", code_of("任务 ID 已存在")),
        RegisterError::TooMany(n) => {
            let mut m: Vec<char> = Vec::new();
            push_str(&mut m, "并发任务已达上限 ");
            let limit = decimal_chars(MAX_CONCURRENT_TASKS as u64);
            m = concat_chars(m.as_slice(), limit.as_slice());
            push_str(&mut m, "（当前 ");
            let current = decimal_chars(*n as u64);
            m = concat_chars(m.as_slice(), current.as_slice());
            push_str(&mut m, "）");
            ArchiveErrorDto::new("too_many_tasks", string_of(m.as_slice()))
        },
    }
}

/// The report of a task whose worker failed before it returned (it
/// panicked or was stopped): an `io` error naming what the task was doing.
pub fn worker_failure(creating: bool, detail: &str) -> (r: ArchiveErrorDto)
    ensures
        r.code@ == "io"@,
        !creating ==> r.message@ == "解压任务异常: "@ + detail@,
        creating ==> r.message@ == "创建任务异常: "@ + detail@,
{
    let mut m: Vec<char> = Vec::new();
    if creating {
        push_str(&mut m, "创建任务异常: ");
    } else {
        push_str(&mut m, "解压任务异常: ");
    }
    push_str(&mut m, detail);
    ArchiveErrorDto::new("io", string_of(m.as_slice()))
}

/// How a finished extraction or creation is reported: the last event sent
/// and the result returned. A cancelled summary is reported as the error
/// `cancelled`; any other summary as finished, with its counters; an error
/// as itself.
pub fn finish_task(result: Result<ExtractSummary, ArchiveErrorDto>) -> (r: (
    ProgressEvent,
    Result<SummaryDto, ArchiveErrorDto>,
))
    ensures
        match result {
            Ok(s) => if s.cancelled {
                &&& r.0 == ProgressEvent::Cancelled
                &&& r.1 matches Err(e) && e.code@ == "cancelled"@ && e.message@ == "操作已取消"@
            } else {
                let dto = (SummaryDto {
                    entries_extracted: s.entries_extracted,
                    entries_skipped: s.entries_skipped,
                    bytes_written: s.bytes_written,
                    cancelled: false,
                });
                &&& r.0 == (ProgressEvent::Finished { summary: dto })
                &&& r.1 == Ok::<SummaryDto, ArchiveErrorDto>(dto)
            },
            Err(e) => {
                &&& r.0 matches ProgressEvent::Error { error } && error.code@ == e.code@
                    && error.message@ == e.message@
                &&& r.1 matches Err(f) && f.code@ == e.code@ && f.message@ == e.message@
            },
        },
{
    match result {
        Ok(summary) => {
            if summary.cancelled {
                (
                    ProgressEvent::Cancelled,
                    Err(ArchiveErrorDto::new("cancelled", code_of("操作已取消"))),
                )
            } else {
                let dto = SummaryDto::from_summary(&summary);
                let sent = SummaryDto::from_summary(&summary);
                (ProgressEvent::Finished { summary: sent }, Ok(dto))
            }
        },
        Err(e) => {
            let sent = copy_dto(&e);
            (ProgressEvent::Error { error: sent }, Err(e))
        },
    }
}

/// Least time between two byte-progress events, in milliseconds.
pub const EMIT_INTERVAL_MS: u64 = 40;

/// Whether a byte-progress event is sent at `now_ms`, the last one having
/// been sent at `last_ms` (none yet: always); a clock that went back counts
/// as no time elapsed.
pub fn should_emit(last_ms: Option<u64>, now_ms: u64) -> (r: bool)
    ensures
        r == match last_ms {
            Some(t) => now_ms >= t && now_ms - t >= EMIT_INTERVAL_MS,
            None => true,
        },
{
    match last_ms {
        Some(t) => now_ms.saturating_sub(t) >= EMIT_INTERVAL_MS,
        None => true,
    }
}

/// Seconds left at `bytes_per_sec`: the bytes still to go divided by the
/// speed; unknown when the total is unknown or nothing moves.
pub fn eta_secs(processed: u64, total: u64, bytes_per_sec: u64) -> (r: Option<u64>)
    ensures
        total > 0 && bytes_per_sec > 0 ==> r == Some(
            (if processed <= total {
                (total - processed) as u64
            } else {
                0u64
            }) / bytes_per_sec,
        ),
        !(total > 0 && bytes_per_sec > 0) ==> r is None,
{
    if total > 0 && bytes_per_sec > 0 {
        total.saturating_sub(processed).checked_div(bytes_per_sec)
    } else {
        None
    }
}

/// The byte-progress event: indeterminate when the total is unknown; the
/// speed and time left when a speed was measured, else speed 0 and no time.
pub fn bytes_event(processed: u64, total: u64, speed: Option<u64>, eta: Option<u64>) -> (r: ProgressEvent)
    ensures
        r == (ProgressEvent::Bytes {
            processed,
            total,
            indeterminate: total == 0,
            speed: match speed {
                Some(b) => b,
                None => 0,
            },
            eta_secs: match speed {
                Some(_) => eta,
                None => None,
            },
        }),
{
    match speed {
        Some(bps) => ProgressEvent::Bytes {
            processed,
            total,
            indeterminate: total == 0,
            speed: bps,
            eta_secs: eta,
        },
        None => ProgressEvent::Bytes {
            processed,
            total,
            indeterminate: total == 0,
            speed: 0,
            eta_secs: None,
        },
    }
}

} // verus!
