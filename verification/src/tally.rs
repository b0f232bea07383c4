//! The bookkeeping of an extraction: what the task will process (counted
//! before extracting, for progress) and the running summary, updated as
//! each entry is done.

use vstd::prelude::*;
use crate::extract::{sevenz_entry_wanted, sevenz_wants, zip_entry_wanted, zip_wants};
use crate::text::views;
use crate::types::{ArchiveEntry, ExtractSummary};

verus! {

/// Which partial-extraction rule selects entries.
#[derive(Debug, Clone, Copy, PartialEq, Eq, Structural)]
pub enum FilterRule {
    /// ZIP directory matching (see [`zip_wants`]).
    Zip,
    /// 7z directory matching (see [`sevenz_wants`]).
    SevenZ,
    /// Every entry (RAR extracts whole archives).
    All,
}

/// Whether `rule` with `filter` selects the entry named `name`.
pub open spec fn rule_wants(rule: FilterRule, filter: Seq<Seq<char>>, name: Seq<char>) -> bool {
    match rule {
        FilterRule::Zip => zip_wants(filter, name),
        FilterRule::SevenZ => sevenz_wants(filter, name),
        FilterRule::All => true,
    }
}

/// An entry that counts toward the planned work: a selected non-directory.
pub open spec fn planned_entry(rule: FilterRule, filter: Seq<Seq<char>>, e: ArchiveEntry) -> bool {
    !e.is_dir && rule_wants(rule, filter, e.path@)
}

/// Number of entries that count toward the planned work.
pub open spec fn plan_count(rule: FilterRule, filter: Seq<Seq<char>>, entries: Seq<ArchiveEntry>) -> nat
    decreases entries.len(),
{
    if entries.len() == 0 {
        0
    } else {
        plan_count(rule, filter, entries.drop_last()) + if planned_entry(
            rule,
            filter,
            entries.last(),
        ) {
            1nat
        } else {
            0nat
        }
    }
}

/// Total declared size of the entries that count toward the planned work.
pub open spec fn plan_bytes(rule: FilterRule, filter: Seq<Seq<char>>, entries: Seq<ArchiveEntry>) -> nat
    decreases entries.len(),
{
    if entries.len() == 0 {
        0
    } else {
        plan_bytes(rule, filter, entries.drop_last()) + if planned_entry(
            rule,
            filter,
            entries.last(),
        ) {
            entries.last().size as nat
        } else {
            0nat
        }
    }
}

/// The planned work never shrinks as entries are added.
pub proof fn lemma_plan_monotone(
    rule: FilterRule,
    filter: Seq<Seq<char>>,
    entries: Seq<ArchiveEntry>,
    k: int,
)
    requires
        0 <= k <= entries.len(),
    ensures
        plan_bytes(rule, filter, entries.take(k)) <= plan_bytes(rule, filter, entries),
        plan_count(rule, filter, entries.take(k)) <= plan_count(rule, filter, entries),
        plan_count(rule, filter, entries) <= entries.len(),
    decreases entries.len(),
{
    if entries.len() > 0 {
        if k < entries.len() {
            assert(entries.drop_last().take(k) =~= entries.take(k));
            lemma_plan_monotone(rule, filter, entries.drop_last(), k);
        } else {
            assert(entries.take(k) =~= entries);
            lemma_plan_monotone(rule, filter, entries.drop_last(), k - 1);
        }
    }
}

/// Whether `rule` with `filter` selects the entry named `name`.
pub fn rule_selects(rule: FilterRule, filter: &[String], name: &str) -> (r: bool)
    ensures
        r == rule_wants(rule, views(filter@), name@),
{
    match rule {
        FilterRule::Zip => zip_entry_wanted(filter, name),
        FilterRule::SevenZ => sevenz_entry_wanted(filter, name),
        FilterRule::All => true,
    }
}

/// The planned work of an extraction, counted from the entry list before
/// anything is written: the number of selected non-directory entries and
/// the sum of their declared sizes; `None` when that sum does not fit in a
/// `u64`.
pub fn plan_work(entries: &[ArchiveEntry], filter: &[String], rule: FilterRule) -> (r: Option<(usize, u64)>)
    ensures
        r matches Some((n, b)) ==> n == plan_count(rule, views(filter@), entries@) && b == plan_bytes(
            rule,
            views(filter@),
            entries@,
        ),
        r is None <==> plan_bytes(rule, views(filter@), entries@) > u64::MAX,
{
    let ghost f = views(filter@);
    let mut count: usize = 0;
    let mut bytes: u64 = 0;
    let mut i: usize = 0;
    proof {
        assert(entries@.take(0) =~= Seq::<ArchiveEntry>::empty());
    }
    while i < entries.len()
        invariant
            i <= entries@.len(),
            f == views(filter@),
            count == plan_count(rule, f, entries@.take(i as int)),
            bytes == plan_bytes(rule, f, entries@.take(i as int)),
        decreases entries@.len() - i,
    {
        let e = &entries[i];
        proof {
            assert(entries@.take(i + 1).drop_last() =~= entries@.take(i as int));
            assert(entries@.take(i + 1).last() == entries@[i as int]);
            lemma_plan_monotone(rule, f, entries@.take(i + 1), i + 1);
            assert(entries@.take(i + 1).take(i + 1) =~= entries@.take(i + 1));
        }
        if !e.is_dir && rule_selects(rule, filter, e.path.as_str()) {
            match bytes.checked_add(e.size) {
                Some(b) => {
                    bytes = b;
                },
                None => {
                    proof {
                        lemma_plan_monotone(rule, f, entries@, i + 1);
                    }
                    return None;
                },
            }
            count = count + 1;
        }
        i += 1;
    }
    assert(entries@.take(entries@.len() as int) =~= entries@);
    Some((count, bytes))
}

/// What adding a source to a new archive does after a read.
#[derive(Debug, Clone, Copy, PartialEq, Eq, Structural)]
pub enum ChunkStep {
    /// Cancelled: stop, and remove the unfinished archive.
    Abandon,
    /// The source is exhausted: the entry is complete.
    EntryDone,
    /// Write the bytes read.
    Write,
}

/// The running counters of one extraction: the summary so far and the bytes
/// the task has got through (bytes written, plus the declared sizes of the
/// entries it skipped after planning them).
pub struct ExtractTally {
    pub summary: ExtractSummary,
    pub bytes_done: u64,
}

impl ExtractTally {
    /// Counters in order: nothing is written that was not got through.
    pub open spec fn wf(&self) -> bool {
        self.summary.bytes_written <= self.bytes_done
    }

    /// A fresh tally for a task of `entries_total` entries (0: unknown).
    pub fn new(entries_total: usize) -> (r: Self)
        ensures
            r.wf(),
            r.summary.entries_total == entries_total,
            r.summary.entries_extracted == 0,
            r.summary.entries_skipped == 0,
            r.summary.bytes_written == 0,
            !r.summary.cancelled,
            r.summary.extracted_paths@.len() == 0,
            r.bytes_done == 0,
    {
        let mut summary = ExtractSummary::default();
        summary.entries_total = entries_total;
        ExtractTally { summary, bytes_done: 0 }
    }

    /// One more entry was met (formats whose size is learnt while reading).
    pub fn count_entry(&mut self)
        requires
            old(self).summary.entries_total < usize::MAX,
        ensures
            final(self).summary == (ExtractSummary {
                entries_total: (old(self).summary.entries_total + 1) as usize,
                ..old(self).summary
            }),
            final(self).bytes_done == old(self).bytes_done,
    {
        self.summary.entries_total = self.summary.entries_total + 1;
    }

    /// An entry was completed that has no bytes of its own to count (a
    /// directory, or a file whose bytes were counted chunk by chunk).
    pub fn entry_done(&mut self)
        requires
            old(self).summary.entries_extracted < usize::MAX,
        ensures
            final(self).summary == (ExtractSummary {
                entries_extracted: (old(self).summary.entries_extracted + 1) as usize,
                ..old(self).summary
            }),
            final(self).bytes_done == old(self).bytes_done,
    {
        self.summary.entries_extracted = self.summary.entries_extracted + 1;
    }

    /// An entry was skipped; its declared size `size` still counts as got
    /// through, so that the overall progress stays continuous.
    pub fn skipped(&mut self, size: u64)
        requires
            old(self).wf(),
            old(self).summary.entries_skipped < usize::MAX,
            old(self).bytes_done + size <= u64::MAX,
        ensures
            final(self).wf(),
            final(self).summary == (ExtractSummary {
                entries_skipped: (old(self).summary.entries_skipped + 1) as usize,
                ..old(self).summary
            }),
            final(self).bytes_done == old(self).bytes_done + size,
    {
        self.summary.entries_skipped = self.summary.entries_skipped + 1;
        self.bytes_done = self.bytes_done + size;
    }

    /// An entry was skipped without counting toward the progress.
    pub fn passed_over(&mut self)
        requires
            old(self).summary.entries_skipped < usize::MAX,
        ensures
            final(self).summary == (ExtractSummary {
                entries_skipped: (old(self).summary.entries_skipped + 1) as usize,
                ..old(self).summary
            }),
            final(self).bytes_done == old(self).bytes_done,
    {
        self.summary.entries_skipped = self.summary.entries_skipped + 1;
    }

    /// A file of `bytes` bytes was written and committed.
    pub fn written(&mut self, bytes: u64)
        requires
            old(self).wf(),
            old(self).summary.entries_extracted < usize::MAX,
            old(self).bytes_done + bytes <= u64::MAX,
        ensures
            final(self).wf(),
            final(self).summary == (ExtractSummary {
                entries_extracted: (old(self).summary.entries_extracted + 1) as usize,
                bytes_written: (old(self).summary.bytes_written + bytes) as u64,
                ..old(self).summary
            }),
            final(self).bytes_done == old(self).bytes_done + bytes,
    {
        self.summary.entries_extracted = self.summary.entries_extracted + 1;
        self.summary.bytes_written = self.summary.bytes_written + bytes;
        self.bytes_done = self.bytes_done + bytes;
    }

    /// The file at `relative` (a path relative to the destination) was
    /// committed: it joins the list of committed files, which a caller uses
    /// to clean up after a cancellation. Nothing else changes.
    pub fn committed(&mut self, relative: String)
        ensures
            final(self).summary.extracted_paths@ == old(self).summary.extracted_paths@.push(relative),
            final(self).summary.entries_total == old(self).summary.entries_total,
            final(self).summary.entries_extracted == old(self).summary.entries_extracted,
            final(self).summary.entries_skipped == old(self).summary.entries_skipped,
            final(self).summary.bytes_written == old(self).summary.bytes_written,
            final(self).summary.cancelled == old(self).summary.cancelled,
            final(self).bytes_done == old(self).bytes_done,
    {
        self.summary.extracted_paths.push(relative);
    }

    /// `bytes` more bytes of the current entry were written.
    pub fn progressed(&mut self, bytes: u64)
        requires
            old(self).wf(),
            old(self).bytes_done + bytes <= u64::MAX,
        ensures
            final(self).wf(),
            final(self).summary == (ExtractSummary {
                bytes_written: (old(self).summary.bytes_written + bytes) as u64,
                ..old(self).summary
            }),
            final(self).bytes_done == old(self).bytes_done + bytes,
    {
        self.summary.bytes_written = self.summary.bytes_written + bytes;
        self.bytes_done = self.bytes_done + bytes;
    }

    /// The step before each entry (or each source of a new archive): when
    /// the token answered `cancelled`, the summary says so and the task
    /// stops there, ending with that summary (its result is `Ok`); otherwise
    /// nothing changes and the entry is handled.
    pub fn entry_step(&mut self, cancelled: bool) -> (stop: bool)
        ensures
            stop == cancelled,
            cancelled ==> final(self).summary == (ExtractSummary { cancelled: true, ..old(self).summary }),
            cancelled ==> final(self).bytes_done == old(self).bytes_done,
            !cancelled ==> *final(self) == *old(self),
    {
        if cancelled {
            self.cancel();
        }
        cancelled
    }

    /// The step after each read of a source being added to a new archive:
    /// a cancellation abandons the archive (the summary says so, and the
    /// unfinished archive is removed); an empty read ends the entry (one
    /// more entry done); `read` bytes otherwise are written and counted.
    pub fn create_chunk_step(&mut self, cancelled: bool, read: usize) -> (r: ChunkStep)
        requires
            old(self).wf(),
            !cancelled && read == 0 ==> old(self).summary.entries_extracted < usize::MAX,
            !cancelled ==> old(self).bytes_done + read <= u64::MAX,
        ensures
            final(self).wf(),
            cancelled ==> r == ChunkStep::Abandon && final(self).summary == (ExtractSummary {
                cancelled: true,
                ..old(self).summary
            }) && final(self).bytes_done == old(self).bytes_done,
            !cancelled && read == 0 ==> r == ChunkStep::EntryDone && final(self).summary == (
            ExtractSummary {
                entries_extracted: (old(self).summary.entries_extracted + 1) as usize,
                ..old(self).summary
            }) && final(self).bytes_done == old(self).bytes_done,
            !cancelled && read > 0 ==> r == ChunkStep::Write && final(self).summary == (
            ExtractSummary {
                bytes_written: (old(self).summary.bytes_written + read) as u64,
                ..old(self).summary
            }) && final(self).bytes_done == old(self).bytes_done + read,
    {
        if cancelled {
            self.cancel();
            ChunkStep::Abandon
        } else if read == 0 {
            self.entry_done();
            ChunkStep::EntryDone
        } else {
            self.progressed(read as u64);
            ChunkStep::Write
        }
    }

    /// Cancellation was requested: the summary says so.
    pub fn cancel(&mut self)
        ensures
            final(self).summary == (ExtractSummary { cancelled: true, ..old(self).summary }),
            final(self).bytes_done == old(self).bytes_done,
    {
        self.summary.cancelled = true;
    }
}

} // verus!
