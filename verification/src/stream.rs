//! The streaming copy that every extractor uses to write an entry: a fixed
//! buffer, a cancellation check before each chunk, and the size limits
//! checked on every chunk.

use vstd::prelude::*;
use std::io::{Read, Write};
use crate::error::ArchiveError;
use crate::extract::{chunk_outcome, copy_chunk, COPY_BUF};
use crate::progress::{CancelToken, ProgressSink};
use crate::tally::ExtractTally;
use crate::types::{ExtractLimits, ExtractSummary};

verus! {

/// An I/O error of the reader or the writer.
#[verifier::external_type_specification]
#[verifier::external_body]
pub struct ExIoError(std::io::Error);

/// Why a streaming copy stopped early.
pub enum CopyError {
    /// Cancellation was requested.
    Cancelled,
    /// A size limit was broken (`FileTooLarge` or `BombDetected`).
    Limit(ArchiveError),
    /// Reading or writing failed.
    Io(std::io::Error),
}

/// `Read::read` into the whole buffer: reports how many bytes it filled,
/// never more than the buffer holds.
#[verifier::external_body]
fn read_into<R: Read>(reader: &mut R, buf: &mut Vec<u8>) -> (r: Result<usize, std::io::Error>)
    ensures
        final(buf)@.len() == old(buf)@.len(),
        r matches Ok(n) ==> n <= old(buf)@.len(),
{
    reader.read(buf.as_mut_slice())
}

/// `Write::write_all` of the first `n` bytes of `buf`.
#[verifier::external_body]
fn write_prefix<W: Write>(writer: &mut W, buf: &Vec<u8>, n: usize) -> (r: Result<(), std::io::Error>)
    requires
        n <= buf@.len(),
{
    writer.write_all(&buf[..n])
}

/// `Write::flush`.
#[verifier::external_body]
fn flush_writer<W: Write>(writer: &mut W) -> (r: Result<(), std::io::Error>) {
    writer.flush()
}

/// The limit error for an entry whose declared size `entry_total` (0:
/// unknown) exceeds the per-file limit, if it does.
pub open spec fn declared_too_large(entry_total: u64, limits: ExtractLimits) -> bool {
    entry_total > 0 && entry_total > limits.max_file_bytes
}

/// What a streaming copy did, in order, for the contracts (at run time it
/// holds nothing): the token's answers, the chunks the reader filled
/// (a read that reports 0 bytes gives an empty chunk), whether a read
/// failed, the chunks handed to the writer, and the progress (processed,
/// total) reported to the sink after each chunk written.
pub struct CopyTrace {
    pub answers: Ghost<Seq<bool>>,
    pub reads: Ghost<Seq<Seq<u8>>>,
    pub read_failed: Ghost<bool>,
    pub writes: Ghost<Seq<Seq<u8>>>,
    pub progress: Ghost<Seq<(u64, u64)>>,
}

/// After each chunk handed to the writer the sink learnt the task total so
/// far (`before` plus the bytes of the chunks up to it) out of `total`.
pub open spec fn progress_follows(progress: Seq<(u64, u64)>, writes: Seq<Seq<u8>>, before: u64, total: u64) -> bool {
    &&& progress.len() == writes.len()
    &&& forall|i: int|
        0 <= i < progress.len() ==> #[trigger] progress[i] == ((before + chunk_total(writes.take(i + 1))) as u64, total)
}

/// The number of bytes in `chunks`.
pub open spec fn chunk_total(chunks: Seq<Seq<u8>>) -> nat
    decreases chunks.len(),
{
    if chunks.len() == 0 {
        0
    } else {
        chunk_total(chunks.drop_last()) + chunks.last().len()
    }
}

/// The token answered "go on" every time.
pub open spec fn never_stopped(answers: Seq<bool>) -> bool {
    forall|i: int| 0 <= i < answers.len() ==> !answers[i]
}

/// The token answered "go on" every time but the last, which was "stop".
pub open spec fn stopped_by_token(answers: Seq<bool>) -> bool {
    answers.len() > 0 && answers.last() && never_stopped(answers.drop_last())
}

/// Every chunk holds data.
pub open spec fn all_nonempty(chunks: Seq<Seq<u8>>) -> bool {
    forall|i: int| 0 <= i < chunks.len() ==> chunks[i].len() > 0
}

/// The data ran out: a read failed, or the last read reported 0 bytes.
pub open spec fn data_ended(t: CopyTrace) -> bool {
    t.read_failed@ || (t.reads@.len() > 0 && t.reads@.last().len() == 0)
}

proof fn lemma_chunk_total_push(chunks: Seq<Seq<u8>>, c: Seq<u8>)
    ensures
        chunk_total(chunks.push(c)) == chunk_total(chunks) + c.len(),
{
    assert(chunks.push(c).drop_last() =~= chunks);
}

proof fn lemma_push_keeps(answers: Seq<bool>, chunks: Seq<Seq<u8>>, c: Seq<u8>)
    requires
        never_stopped(answers),
        all_nonempty(chunks),
        c.len() > 0,
    ensures
        never_stopped(answers.push(false)),
        all_nonempty(chunks.push(c)),
        chunks.push(Seq::empty()).drop_last() == chunks,
        answers.push(true).drop_last() == answers,
{
    assert(chunks.push(Seq::empty()).drop_last() =~= chunks);
    assert(answers.push(true).drop_last() =~= answers);
}

/// Copies `reader` to `writer` through a buffer of [`COPY_BUF`] bytes and
/// returns the number of bytes copied, with the trace of what it did.
///
/// `bytes_before` is what the task produced before this entry, `entry_total`
/// the declared size of the entry (0: unknown) and `task_total` the size of
/// the whole task, for progress. A declared size above the per-file limit
/// is refused before anything is read. Before each read the token is
/// asked whether to stop; each chunk read must keep the entry within the
/// per-file limit and the task within the total limit, and is then handed
/// whole to the writer, and the sink learns the new task total. A read of
/// 0 bytes ends the data; the writer is then flushed.
pub fn copy_stream<R: Read, W: Write>(
    reader: R,
    writer: W,
    sink: &dyn ProgressSink,
    cancel: &dyn CancelToken,
    bytes_before: u64,
    entry_total: u64,
    task_total: u64,
    limits: &ExtractLimits,
) -> (out: (Result<u64, CopyError>, CopyTrace))
    ensures
        ({
            let (r, t) = out;
            &&& declared_too_large(entry_total, *limits) ==> (r matches Err(CopyError::Limit(e))
                && e == (ArchiveError::FileTooLarge { actual: entry_total, max: limits.max_file_bytes })
                && t.answers@.len() == 0 && t.reads@.len() == 0 && t.writes@.len() == 0)
            &&& r matches Ok(n) ==> (!declared_too_large(entry_total, *limits) && n <= limits.max_file_bytes
                && (n > 0 ==> bytes_before + n <= limits.max_total_bytes))
            &&& r matches Ok(n) ==> (never_stopped(t.answers@) && t.answers@.len() == t.reads@.len()
                && !t.read_failed@ && t.reads@.len() > 0 && t.reads@.last().len() == 0
                && all_nonempty(t.reads@.drop_last()) && t.writes@ == t.reads@.drop_last() && n
                == chunk_total(t.writes@) && progress_follows(t.progress@, t.writes@, bytes_before, task_total))
            &&& r matches Err(CopyError::Cancelled) ==> (stopped_by_token(t.answers@)
                && t.answers@.len() == t.reads@.len() + 1 && !t.read_failed@ && all_nonempty(t.reads@)
                && t.writes@ == t.reads@)
            &&& t.read_failed@ ==> (r matches Err(CopyError::Io(_)) && never_stopped(t.answers@)
                && t.writes@ == t.reads@)
            &&& r matches Err(CopyError::Limit(e)) ==> (declared_too_large(entry_total, *limits) || (
            never_stopped(t.answers@) && t.reads@.len() > 0 && t.writes@ == t.reads@.drop_last() && ((
            e matches ArchiveError::FileTooLarge { actual, max } && max == limits.max_file_bytes && (
            actual > max || actual == u64::MAX)) || (e matches ArchiveError::BombDetected { current, max }
                && max == limits.max_total_bytes && (current > max || current == u64::MAX) && current
                >= bytes_before))))
        }),
{
    let mut reader = reader;
    let mut writer = writer;
    let ghost mut answers: Seq<bool> = Seq::empty();
    let ghost mut reads: Seq<Seq<u8>> = Seq::empty();
    let ghost mut writes: Seq<Seq<u8>> = Seq::empty();
    let ghost mut progress: Seq<(u64, u64)> = Seq::empty();
    if entry_total > 0 {
        match limits.check_file_size(entry_total) {
            Err(e) => {
                let t = CopyTrace {
                    answers: Ghost(answers),
                    reads: Ghost(reads),
                    read_failed: Ghost(false),
                    writes: Ghost(writes),
                    progress: Ghost(progress),
                };
                return (Err(CopyError::Limit(e)), t);
            },
            Ok(()) => {},
        }
    }
    let mut buf: Vec<u8> = vec![0u8; COPY_BUF];
    let mut written: u64 = 0;
    loop
        invariant_except_break
            answers.len() == reads.len(),
            all_nonempty(reads),
            writes == reads,
        invariant
            buf@.len() == COPY_BUF,
            written <= limits.max_file_bytes,
            written > 0 ==> bytes_before + written <= limits.max_total_bytes,
            !declared_too_large(entry_total, *limits),
            never_stopped(answers),
            written == chunk_total(writes),
            progress_follows(progress, writes, bytes_before, task_total),
        ensures
            answers.len() == reads.len(),
            reads.len() > 0,
            reads.last().len() == 0,
            all_nonempty(reads.drop_last()),
            writes == reads.drop_last(),
            written <= limits.max_file_bytes,
            written > 0 ==> bytes_before + written <= limits.max_total_bytes,
            !declared_too_large(entry_total, *limits),
            never_stopped(answers),
            written == chunk_total(writes),
            progress_follows(progress, writes, bytes_before, task_total),
        decreases limits.max_file_bytes - written,
    {
        let stop = cancel.is_cancelled();
        if stop {
            proof {
                lemma_push_keeps(answers, reads, seq![0u8]);
                answers = answers.push(true);
            }
            let t = CopyTrace {
                answers: Ghost(answers),
                reads: Ghost(reads),
                read_failed: Ghost(false),
                writes: Ghost(writes),
                progress: Ghost(progress),
            };
            return (Err(CopyError::Cancelled), t);
        }
        proof {
            lemma_push_keeps(answers, reads, seq![0u8]);
            answers = answers.push(false);
        }
        let read = match read_into(&mut reader, &mut buf) {
            Ok(n) => n,
            Err(e) => {
                let t = CopyTrace {
                    answers: Ghost(answers),
                    reads: Ghost(reads),
                    read_failed: Ghost(true),
                    writes: Ghost(writes),
                    progress: Ghost(progress),
                };
                return (Err(CopyError::Io(e)), t);
            },
        };
        let ghost chunk = buf@.take(read as int);
        if read == 0 {
            proof {
                assert(chunk.len() == 0);
                lemma_push_keeps(answers, reads, seq![0u8]);
                reads = reads.push(chunk);
            }
            break;
        }
        proof {
            lemma_push_keeps(answers, reads, chunk);
            reads = reads.push(chunk);
        }
        written = match copy_chunk(bytes_before, written, read, limits) {
            Ok(n) => n,
            Err(e) => {
                proof {
                    assert(reads.drop_last() =~= writes);
                }
                let t = CopyTrace {
                    answers: Ghost(answers),
                    reads: Ghost(reads),
                    read_failed: Ghost(false),
                    writes: Ghost(writes),
                    progress: Ghost(progress),
                };
                return (Err(CopyError::Limit(e)), t);
            },
        };
        proof {
            lemma_chunk_total_push(writes, chunk);
        }
        let ghost before_writes = writes;
        proof {
            writes = writes.push(chunk);
        }
        match write_prefix(&mut writer, &buf, read) {
            Err(e) => {
                let t = CopyTrace {
                    answers: Ghost(answers),
                    reads: Ghost(reads),
                    read_failed: Ghost(false),
                    writes: Ghost(writes),
                    progress: Ghost(progress),
                };
                return (Err(CopyError::Io(e)), t);
            },
            Ok(()) => {},
        }
        sink.on_progress(bytes_before + written, task_total);
        proof {
            assert forall|i: int| 0 <= i < progress.len() implies #[trigger] writes.take(i + 1)
                == before_writes.take(i + 1) by {
                assert(writes.take(i + 1) =~= before_writes.take(i + 1));
            }
            assert(writes.take(writes.len() as int) =~= writes);
            progress = progress.push(((bytes_before + written) as u64, task_total));
        }
    }
    let t = CopyTrace {
        answers: Ghost(answers),
        reads: Ghost(reads),
        read_failed: Ghost(false),
        writes: Ghost(writes),
        progress: Ghost(progress),
    };
    match flush_writer(&mut writer) {
        Err(e) => (Err(CopyError::Io(e)), t),
        Ok(()) => (Ok(written), t),
    }
}

/// What one read of a skipped entry's data leads to.
#[derive(Debug, Clone, PartialEq, Eq)]
pub enum DrainStep {
    /// The data ended: the read failed or reported 0 bytes.
    End,
    /// Go on; this many bytes of the entry are consumed so far.
    Next(u64),
    /// Stop with this limit error.
    Limit(ArchiveError),
}

/// The step after a read of `outcome` while consuming a skipped entry of
/// which `consumed` bytes were consumed before, in a task that got through
/// `bytes_done` bytes: a failed read or a read of 0 bytes ends the data;
/// otherwise the chunk is accounted for as [`copy_chunk`] does.
pub fn drain_step(outcome: &Result<usize, std::io::Error>, consumed: u64, bytes_done: u64, limits: &ExtractLimits) -> (r: DrainStep)
    ensures
        outcome is Err ==> r == DrainStep::End,
        outcome matches Ok(n) ==> (n == 0 ==> r == DrainStep::End),
        outcome matches Ok(n) ==> (n > 0 ==> r == (match chunk_outcome(bytes_done, consumed, *n, *limits) {
            Ok(m) => DrainStep::Next(m),
            Err(e) => DrainStep::Limit(e),
        })),
{
    match outcome {
        Err(_) => DrainStep::End,
        Ok(n) => {
            if *n == 0 {
                DrainStep::End
            } else {
                match copy_chunk(bytes_done, consumed, *n, limits) {
                    Ok(m) => DrainStep::Next(m),
                    Err(e) => DrainStep::Limit(e),
                }
            }
        },
    }
}

/// Consumes the data of an entry that is not written (to keep the archive
/// stream aligned) and counts the entry as skipped.
///
/// The data is read through a buffer of [`COPY_BUF`] bytes; before each
/// read the token is asked whether to stop, and each read goes through
/// [`drain_step`]: a failed read or a read of 0 bytes ends the data, and
/// each chunk must keep the bytes consumed within the per-file limit and,
/// added to what the task got through, within the total limit. Once the
/// data ended the entry counts as skipped, its declared `size` counts as
/// got through, and the sink learns that the entry is done and the new task
/// total. Nothing is written.
pub fn drain_reader<R: Read>(
    reader: R,
    tally: &mut ExtractTally,
    sink: &dyn ProgressSink,
    cancel: &dyn CancelToken,
    index: usize,
    size: u64,
    total_bytes: u64,
    limits: &ExtractLimits,
) -> (out: (Result<(), CopyError>, CopyTrace))
    requires
        old(tally).wf(),
        old(tally).summary.entries_skipped < usize::MAX,
        old(tally).bytes_done + size <= u64::MAX,
    ensures
        final(tally).wf(),
        ({
            let (r, t) = out;
            &&& r is Ok ==> final(tally).summary == (ExtractSummary {
                entries_skipped: (old(tally).summary.entries_skipped + 1) as usize,
                ..old(tally).summary
            }) && final(tally).bytes_done == old(tally).bytes_done + size
            &&& r is Err ==> *final(tally) == *old(tally)
            &&& !(r matches Err(CopyError::Io(_)))
            &&& t.writes@.len() == 0
            &&& r is Ok <==> data_ended(t)
            &&& r is Ok ==> never_stopped(t.answers@)
            &&& r matches Err(CopyError::Cancelled) ==> stopped_by_token(t.answers@)
            &&& r matches Err(CopyError::Limit(e)) ==> (never_stopped(t.answers@) && ((
            e matches ArchiveError::FileTooLarge { actual, max } && max == limits.max_file_bytes && (
            actual > max || actual == u64::MAX)) || (e matches ArchiveError::BombDetected { current, max }
                && max == limits.max_total_bytes && (current > max || current == u64::MAX))))
        }),
{
    let mut reader = reader;
    let mut buf: Vec<u8> = vec![0u8; COPY_BUF];
    let mut consumed: u64 = 0;
    let bytes_done = tally.bytes_done;
    let ghost mut answers: Seq<bool> = Seq::empty();
    let ghost mut reads: Seq<Seq<u8>> = Seq::empty();
    let ghost mut failed: bool = false;
    loop
        invariant_except_break
            !failed,
            all_nonempty(reads),
        invariant
            buf@.len() == COPY_BUF,
            consumed <= limits.max_file_bytes,
            *tally == *old(tally),
            old(tally).wf(),
            old(tally).summary.entries_skipped < usize::MAX,
            old(tally).bytes_done + size <= u64::MAX,
            bytes_done == tally.bytes_done,
            never_stopped(answers),
        ensures
            failed || (reads.len() > 0 && reads.last().len() == 0),
            *tally == *old(tally),
            old(tally).wf(),
            old(tally).summary.entries_skipped < usize::MAX,
            old(tally).bytes_done + size <= u64::MAX,
            never_stopped(answers),
        decreases limits.max_file_bytes - consumed,
    {
        let stop = cancel.is_cancelled();
        if stop {
            proof {
                assert(answers.push(true).drop_last() =~= answers);
                answers = answers.push(true);
            }
            let t = CopyTrace {
                answers: Ghost(answers),
                reads: Ghost(reads),
                read_failed: Ghost(failed),
                writes: Ghost(Seq::empty()),
                progress: Ghost(Seq::empty()),
            };
            return (Err(CopyError::Cancelled), t);
        }
        proof {
            answers = answers.push(false);
        }
        let outcome = read_into(&mut reader, &mut buf);
        let ghost chunk = match outcome {
            Ok(n) => buf@.take(n as int),
            Err(_) => Seq::empty(),
        };
        match drain_step(&outcome, consumed, bytes_done, limits) {
            DrainStep::End => {
                proof {
                    if outcome is Err {
                        failed = true;
                    } else {
                        reads = reads.push(chunk);
                    }
                }
                break;
            },
            DrainStep::Next(m) => {
                proof {
                    assert(all_nonempty(reads.push(chunk)));
                    reads = reads.push(chunk);
                }
                consumed = m;
            },
            DrainStep::Limit(e) => {
                proof {
                    reads = reads.push(chunk);
                }
                let t = CopyTrace {
                    answers: Ghost(answers),
                    reads: Ghost(reads),
                    read_failed: Ghost(failed),
                    writes: Ghost(Seq::empty()),
                    progress: Ghost(Seq::empty()),
                };
                return (Err(CopyError::Limit(e)), t);
            },
        }
    }
    tally.skipped(size);
    sink.on_entry_done(index, 0);
    sink.on_progress(tally.bytes_done, total_bytes);
    let t = CopyTrace {
        answers: Ghost(answers),
        reads: Ghost(reads),
        read_failed: Ghost(failed),
        writes: Ghost(Seq::empty()),
        progress: Ghost(Seq::empty()),
    };
    (Ok(()), t)
}

} // verus!
