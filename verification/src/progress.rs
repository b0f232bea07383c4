//! Progress reporting and cancellation: the interfaces that callers
//! implement, and the ready-made sinks and tokens.

use vstd::prelude::*;
use std::sync::atomic::{AtomicBool, AtomicU64};
use std::sync::atomic::Ordering;
use crate::error::ArchiveError;
use crate::types::ArchiveEntry;

verus! {

/// Receives progress of a task. Byte progress is cumulative over the whole
/// task (`processed` so far out of `total`, 0 when unknown). Every method
/// does nothing unless a sink overrides it.
pub trait ProgressSink {
    /// The task starts (`total_bytes` 0: unknown).
    fn on_start(&self, total_entries: usize, total_bytes: u64) {
    }

    /// Cumulative byte progress of the task.
    fn on_progress(&self, processed: u64, total: u64) {
    }

    /// An entry starts.
    fn on_entry_start(&self, index: usize, total: usize, entry: &ArchiveEntry) {
    }

    /// An entry is done.
    fn on_entry_done(&self, index: usize, bytes_written: u64) {
    }

    /// A free-form message.
    fn on_message(&self, msg: &str) {
    }
}

/// Tells whether the task was asked to stop.
pub trait CancelToken {
    /// Whether cancellation was requested.
    fn is_cancelled(&self) -> bool;
}

/// A sink that ignores everything.
pub struct NoopSink;

impl ProgressSink for NoopSink {

}

/// A token that is never cancelled.
pub struct NoopCancel;

impl CancelToken for NoopCancel {
    fn is_cancelled(&self) -> (r: bool)
        ensures
            !r,
    {
        false
    }
}

/// A token backed by an atomic flag that any thread may set.
pub struct AtomicCancel {
    flag: AtomicBool,
}

impl AtomicCancel {
    /// A token that is not cancelled yet.
    pub fn new() -> (r: Self) {
        AtomicCancel { flag: AtomicBool::new(false) }
    }

    /// Requests cancellation.
    pub fn cancel(&self) {
        self.flag.store(true, Ordering::SeqCst);
    }
}

impl CancelToken for AtomicCancel {
    /// Reads the flag (other threads may set it at any time, so nothing is
    /// known of the value read).
    fn is_cancelled(&self) -> bool {
        self.flag.load(Ordering::SeqCst)
    }
}

/// The outcome of a cancellation check whose token answered `cancelled`.
pub fn cancel_result(cancelled: bool) -> (r: Result<(), ArchiveError>)
    ensures
        cancelled ==> r == Err::<(), ArchiveError>(ArchiveError::Cancelled),
        !cancelled ==> r is Ok,
{
    if cancelled {
        Err(ArchiveError::Cancelled)
    } else {
        Ok(())
    }
}

/// Fails with `Cancelled` when the token has been cancelled.
pub fn check_cancel(cancel: &dyn CancelToken) -> (r: Result<(), ArchiveError>)
    ensures
        r matches Err(e) ==> e == ArchiveError::Cancelled,
{
    cancel_result(cancel.is_cancelled())
}

/// A sink that records the byte count: progress overwrites it with the
/// cumulative count, each finished entry adds its bytes.
pub struct CountingSink {
    pub bytes: AtomicU64,
}

impl CountingSink {
    /// A sink at zero.
    pub fn new() -> (r: Self) {
        CountingSink { bytes: AtomicU64::new(0) }
    }

    /// The recorded count (it changes as other threads report).
    pub fn total(&self) -> u64 {
        self.bytes.load(Ordering::Relaxed)
    }
}

impl ProgressSink for CountingSink {
    fn on_entry_done(&self, index: usize, bytes_written: u64) {
        let _ = self.bytes.fetch_add(bytes_written, Ordering::Relaxed);
    }

    fn on_progress(&self, processed: u64, total: u64) {
        self.bytes.store(processed, Ordering::Relaxed);
    }
}

} // verus!
