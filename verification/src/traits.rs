//! The inputs of extraction and creation calls.

use vstd::prelude::*;
use crate::progress::{CancelToken, ProgressSink};
use crate::types::ExtractOptions;

verus! {

/// One extraction call: the archive, the destination directory, the options,
/// and where progress and cancellation go.
pub struct ExtractContext<'a> {
    pub source: &'a str,
    pub dest: &'a str,
    pub options: &'a ExtractOptions,
    pub progress: &'a dyn ProgressSink,
    pub cancel: &'a dyn CancelToken,
}

/// A file or directory to put into a new archive.
#[derive(Debug, Clone, PartialEq, Eq)]
pub struct CreateSource {
    /// Where it is on disk.
    pub fs_path: String,
    /// Its path inside the archive (a trailing `/` marks a directory).
    pub archive_path: String,
}

/// Options of a new archive.
#[derive(Debug, Clone, PartialEq, Eq)]
pub struct CreateOptions {
    /// Password, for the formats that encrypt.
    pub password: Option<String>,
    /// Compression level (0 stores, 1..=9; none: the format's default).
    pub level: Option<i32>,
}

impl Default for CreateOptions {
    fn default() -> (r: Self)
        ensures
            r.password is None,
            r.level is None,
    {
        CreateOptions { password: None, level: None }
    }
}

/// One creation call: the destination archive, the inputs, the options, and
/// where progress and cancellation go.
pub struct CreateContext<'a> {
    pub dest: &'a str,
    pub sources: &'a [CreateSource],
    pub options: &'a CreateOptions,
    pub progress: &'a dyn ProgressSink,
    pub cancel: &'a dyn CancelToken,
}

} // verus!
