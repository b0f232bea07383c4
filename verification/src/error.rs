//! The library's error type and its user-facing message.

use vstd::prelude::*;
use crate::text::{chars_of, concat_chars, decimal, decimal_chars, push_str, string_of};

verus! {

/// Why an archive operation failed.
#[derive(Debug, Clone, PartialEq, Eq)]
pub enum ArchiveError {
    /// The archive format could not be recognised (holds the path).
    UnknownFormat(String),
    /// An entry path tries to leave the destination (holds the entry).
    PathTraversal(String),
    /// The archive is encrypted and no password was given.
    PasswordRequired,
    /// The given password is wrong.
    WrongPassword,
    /// The archive is damaged or incomplete.
    Corrupt(String),
    /// The operation was cancelled.
    Cancelled,
    /// A feature the archive needs is not supported.
    Unsupported(String),
    /// An input/output failure (holds its message).
    Io(String),
    /// An entry path is longer than the configured limit.
    PathTooLong { path: String, len: usize, max: usize },
    /// The running total of extracted bytes exceeds the limit.
    BombDetected { current: u64, max: u64 },
    /// One file is larger than the per-file limit.
    FileTooLarge { actual: u64, max: u64 },
    /// The archive has more entries than allowed.
    TooManyEntries { actual: usize, max: usize },
    /// A request refused with a plain message (an entry name or path that the
    /// safety rules reject, a name conflict, ...).
    Rejected(String),
}

impl ArchiveError {
    /// Whether this error stands for a cancellation.
    pub fn is_cancelled(&self) -> (r: bool)
        ensures
            r == (*self is Cancelled),
    {
        match self {
            ArchiveError::Cancelled => true,
            _ => false,
        }
    }

    /// The text shown to the user for this error.
    pub fn message(&self) -> (r: String)
        ensures
            r@ == error_text(*self),
    {
        let mut v: Vec<char> = Vec::new();
        match self {
            ArchiveError::UnknownFormat(p) => {
                push_str(&mut v, "无法识别的归档格式: ");
                let c = chars_of(p.as_str());
                v = concat_chars(v.as_slice(), c.as_slice());
            },
            ArchiveError::PathTraversal(p) => {
                push_str(&mut v, "路径逃逸（拒绝条目以防 Zip Slip）: ");
                let c = chars_of(p.as_str());
                v = concat_chars(v.as_slice(), c.as_slice());
            },
            ArchiveError::PasswordRequired => {
                push_str(&mut v, "归档已加密，需要密码");
            },
            ArchiveError::WrongPassword => {
                push_str(&mut v, "密码错误");
            },
            ArchiveError::Corrupt(p) => {
                push_str(&mut v, "归档已损坏或不完整: ");
                let c = chars_of(p.as_str());
                v = concat_chars(v.as_slice(), c.as_slice());
            },
            ArchiveError::Cancelled => {
                push_str(&mut v, "操作已取消");
            },
            ArchiveError::Unsupported(p) => {
                push_str(&mut v, "不支持的特性: ");
                let c = chars_of(p.as_str());
                v = concat_chars(v.as_slice(), c.as_slice());
            },
            ArchiveError::Io(p) => {
                let c = chars_of(p.as_str());
                v = c;
            },
            ArchiveError::PathTooLong { path, len, max } => {
                push_str(&mut v, "路径过长（");
                let a = decimal_chars(*len as u64);
                v = concat_chars(v.as_slice(), a.as_slice());
                push_str(&mut v, " 字节，上限 ");
                let b = decimal_chars(*max as u64);
                v = concat_chars(v.as_slice(), b.as_slice());
                push_str(&mut v, "）: ");
                let c = chars_of(path.as_str());
                v = concat_chars(v.as_slice(), c.as_slice());
            },
            ArchiveError::BombDetected { current, max } => {
                push_str(&mut v, "疑似解压炸弹：累计 ");
                let a = decimal_chars(*current);
                v = concat_chars(v.as_slice(), a.as_slice());
                push_str(&mut v, " 字节超过上限 ");
                let b = decimal_chars(*max);
                v = concat_chars(v.as_slice(), b.as_slice());
            },
            ArchiveError::FileTooLarge { actual, max } => {
                push_str(&mut v, "单文件过大：");
                let a = decimal_chars(*actual);
                v = concat_chars(v.as_slice(), a.as_slice());
                push_str(&mut v, " 字节超过上限 ");
                let b = decimal_chars(*max);
                v = concat_chars(v.as_slice(), b.as_slice());
            },
            ArchiveError::TooManyEntries { actual, max } => {
                push_str(&mut v, "条目数过多：");
                let a = decimal_chars(*actual as u64);
                v = concat_chars(v.as_slice(), a.as_slice());
                push_str(&mut v, " 超过上限 ");
                let b = decimal_chars(*max as u64);
                v = concat_chars(v.as_slice(), b.as_slice());
            },
            ArchiveError::Rejected(p) => {
                let c = chars_of(p.as_str());
                v = c;
            },
        }
        string_of(v.as_slice())
    }
}

/// The message of each error, as `Display` shows it.
pub open spec fn error_text(e: ArchiveError) -> Seq<char> {
    match e {
        ArchiveError::UnknownFormat(p) => "无法识别的归档格式: "@ + p@,
        ArchiveError::PathTraversal(p) => "路径逃逸（拒绝条目以防 Zip Slip）: "@ + p@,
        ArchiveError::PasswordRequired => "归档已加密，需要密码"@,
        ArchiveError::WrongPassword => "密码错误"@,
        ArchiveError::Corrupt(p) => "归档已损坏或不完整: "@ + p@,
        ArchiveError::Cancelled => "操作已取消"@,
        ArchiveError::Unsupported(p) => "不支持的特性: "@ + p@,
        ArchiveError::Io(p) => p@,
        ArchiveError::PathTooLong { path, len, max } => "路径过长（"@ + decimal(len as nat)
            + " 字节，上限 "@ + decimal(max as nat) + "）: "@ + path@,
        ArchiveError::BombDetected { current, max } => "疑似解压炸弹：累计 "@ + decimal(
            current as nat,
        ) + " 字节超过上限 "@ + decimal(max as nat),
        ArchiveError::FileTooLarge { actual, max } => "单文件过大："@ + decimal(actual as nat)
            + " 字节超过上限 "@ + decimal(max as nat),
        ArchiveError::TooManyEntries { actual, max } => "条目数过多："@ + decimal(actual as nat)
            + " 超过上限 "@ + decimal(max as nat),
        ArchiveError::Rejected(p) => p@,
    }
}

} // verus!
