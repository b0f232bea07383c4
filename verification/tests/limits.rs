use std::io::Cursor;

use archive_core::error::ArchiveError;
use archive_core::extract::{
    check_commit, check_declared_size, check_ratio, copy_chunk, sevenz_entry_action,
    tar_entry_action, SevenZAction, TarEntryAction, COPY_BUF,
};
use archive_core::progress::{check_cancel, AtomicCancel, CountingSink, NoopCancel, NoopSink};
use archive_core::stream::{copy_stream, drain_reader, drain_step, CopyError, DrainStep};
use archive_core::tally::{plan_work, ChunkStep, ExtractTally, FilterRule};
use archive_core::types::{ArchiveEntry, ExtractLimits};

fn small_limits() -> ExtractLimits {
    ExtractLimits {
        max_total_bytes: 1000,
        max_file_bytes: 600,
        max_ratio: 10,
        max_entries: 3,
        max_path_len: 4096,
    }
}

#[test]
fn default_limits() {
    let l = ExtractLimits::default();
    assert_eq!(l.max_total_bytes, 4 * 1024 * 1024 * 1024);
    assert_eq!(l.max_file_bytes, 1024 * 1024 * 1024);
    assert_eq!(l.max_ratio, 200);
    assert_eq!(l.max_entries, 100_000);
    assert_eq!(l.max_path_len, 4096);
    assert_eq!(COPY_BUF, 256 * 1024);
}

#[test]
fn entry_and_size_limits() {
    let l = small_limits();
    assert_eq!(l.check_entries(3), Ok(()));
    assert_eq!(
        l.check_entries(4),
        Err(ArchiveError::TooManyEntries { actual: 4, max: 3 })
    );
    assert_eq!(l.check_file_size(600), Ok(()));
    assert_eq!(
        l.check_file_size(601),
        Err(ArchiveError::FileTooLarge { actual: 601, max: 600 })
    );
    assert_eq!(check_declared_size(0, &l), Ok(()));
    assert!(check_declared_size(700, &l).is_err());
}

#[test]
fn chunks_respect_both_limits() {
    let l = small_limits();
    assert_eq!(copy_chunk(0, 100, 200, &l), Ok(300));
    assert_eq!(
        copy_chunk(0, 500, 200, &l),
        Err(ArchiveError::FileTooLarge { actual: 700, max: 600 })
    );
    assert_eq!(
        copy_chunk(900, 0, 200, &l),
        Err(ArchiveError::BombDetected { current: 1100, max: 1000 })
    );
    assert_eq!(check_commit(500, 400, &l), Ok(()));
    assert_eq!(
        check_commit(700, 400, &l),
        Err(ArchiveError::BombDetected { current: 1100, max: 1000 })
    );
    assert_eq!(check_ratio(100, 10, &l), Ok(()));
    assert_eq!(
        check_ratio(110, 10, &l),
        Err(ArchiveError::BombDetected { current: 110, max: 1000 })
    );
    assert_eq!(check_ratio(5000, 0, &l), Ok(()));
}

#[test]
fn copy_stream_copies_within_limits() {
    let data = vec![7u8; 500];
    let mut out: Vec<u8> = Vec::new();
    let n = copy_stream(
        Cursor::new(data.clone()),
        &mut out,
        &NoopSink,
        &NoopCancel,
        100,
        500,
        500,
        &small_limits(),
    ).0;
    assert!(matches!(n, Ok(500)));
    assert_eq!(out, data);
}

#[test]
fn copy_stream_refuses_large_entries() {
    let mut out: Vec<u8> = Vec::new();
    let declared = copy_stream(
        Cursor::new(vec![0u8; 10]),
        &mut out,
        &NoopSink,
        &NoopCancel,
        0,
        601,
        0,
        &small_limits(),
    ).0;
    assert!(matches!(
        declared,
        Err(CopyError::Limit(ArchiveError::FileTooLarge { actual: 601, max: 600 }))
    ));
    assert!(out.is_empty());
    let grown = copy_stream(
        Cursor::new(vec![0u8; 601]),
        &mut out,
        &NoopSink,
        &NoopCancel,
        0,
        0,
        0,
        &small_limits(),
    ).0;
    assert!(matches!(
        grown,
        Err(CopyError::Limit(ArchiveError::FileTooLarge { actual: 601, max: 600 }))
    ));
    let total = copy_stream(
        Cursor::new(vec![0u8; 300]),
        &mut Vec::new(),
        &NoopSink,
        &NoopCancel,
        800,
        0,
        0,
        &small_limits(),
    ).0;
    assert!(matches!(
        total,
        Err(CopyError::Limit(ArchiveError::BombDetected { current: 1100, max: 1000 }))
    ));
}

#[test]
fn copy_stream_stops_on_cancel() {
    let cancel = AtomicCancel::new();
    cancel.cancel();
    assert_eq!(check_cancel(&cancel), Err(ArchiveError::Cancelled));
    let mut out: Vec<u8> = Vec::new();
    let r = copy_stream(
        Cursor::new(vec![1u8; 10]),
        &mut out,
        &NoopSink,
        &cancel,
        0,
        10,
        10,
        &small_limits(),
    ).0;
    assert!(matches!(r, Err(CopyError::Cancelled)));
    assert!(out.is_empty());
}

#[test]
fn copy_stream_reports_progress() {
    let sink = CountingSink::new();
    let mut out: Vec<u8> = Vec::new();
    let r = copy_stream(
        Cursor::new(vec![1u8; 50]),
        &mut out,
        &sink,
        &NoopCancel,
        20,
        50,
        70,
        &small_limits(),
    ).0;
    assert!(matches!(r, Ok(50)));
    assert_eq!(sink.total(), 70);
}

#[test]
fn draining_counts_a_skipped_entry() {
    let mut tally = ExtractTally::new(2);
    tally.written(100);
    let r = drain_reader(
        Cursor::new(vec![0u8; 40]),
        &mut tally,
        &NoopSink,
        &NoopCancel,
        1,
        40,
        140,
        &small_limits(),
    ).0;
    assert!(r.is_ok());
    assert_eq!(tally.summary.entries_skipped, 1);
    assert_eq!(tally.summary.entries_extracted, 1);
    assert_eq!(tally.summary.bytes_written, 100);
    assert_eq!(tally.bytes_done, 140);
    let mut t2 = ExtractTally::new(1);
    let over = drain_reader(
        Cursor::new(vec![0u8; 700]),
        &mut t2,
        &NoopSink,
        &NoopCancel,
        0,
        700,
        0,
        &small_limits(),
    ).0;
    assert!(matches!(
        over,
        Err(CopyError::Limit(ArchiveError::FileTooLarge { actual: 700, max: 600 }))
    ));
    assert_eq!(t2.summary.entries_skipped, 0);
}

#[test]
fn tally_bookkeeping() {
    let mut t = ExtractTally::new(0);
    t.count_entry();
    t.count_entry();
    t.entry_done();
    t.skipped(30);
    t.passed_over();
    t.written(12);
    t.progressed(8);
    assert_eq!(t.summary.entries_total, 2);
    assert_eq!(t.summary.entries_extracted, 2);
    assert_eq!(t.summary.entries_skipped, 2);
    assert_eq!(t.summary.bytes_written, 20);
    assert_eq!(t.bytes_done, 50);
    assert!(!t.summary.cancelled);
    t.cancel();
    assert!(t.summary.cancelled);
}

fn entry(path: &str, size: u64, is_dir: bool) -> ArchiveEntry {
    let mut e = ArchiveEntry::named(path.to_string());
    e.size = size;
    e.is_dir = is_dir;
    e
}

#[test]
fn planned_work_counts_selected_files() {
    let entries = vec![
        entry("dir/", 0, true),
        entry("dir/a.txt", 10, false),
        entry("b.txt", 5, false),
        entry("c.txt", 7, false),
    ];
    assert_eq!(plan_work(&entries, &[], FilterRule::Zip), Some((3, 22)));
    assert_eq!(
        plan_work(&entries, &["dir/".to_string()], FilterRule::Zip),
        Some((1, 10))
    );
    assert_eq!(
        plan_work(&entries, &["c.txt".to_string()], FilterRule::SevenZ),
        Some((1, 7))
    );
    assert_eq!(
        plan_work(&entries, &["c.txt".to_string()], FilterRule::All),
        Some((3, 22))
    );
    let huge = vec![entry("a", u64::MAX, false), entry("b", 1, false)];
    assert_eq!(plan_work(&huge, &[], FilterRule::All), None);
    assert_eq!(plan_work(&huge, &["a".to_string()], FilterRule::Zip), Some((1, u64::MAX)));
}

#[test]
fn per_entry_decisions() {
    assert_eq!(tar_entry_action(true, false), TarEntryAction::Directory);
    assert_eq!(tar_entry_action(false, true), TarEntryAction::File);
    assert_eq!(tar_entry_action(false, false), TarEntryAction::Skip);
    let l = small_limits();
    assert_eq!(
        sevenz_entry_action(true, 1, &[], "a", false, true, false, 1, &l),
        SevenZAction::Cancel
    );
    assert_eq!(
        sevenz_entry_action(false, 1, &["b".to_string()], "a", false, true, false, 1, &l),
        SevenZAction::NotWanted
    );
    assert_eq!(
        sevenz_entry_action(false, 4, &[], "a", false, true, false, 1, &l),
        SevenZAction::Abort(ArchiveError::TooManyEntries { actual: 4, max: 3 })
    );
    assert_eq!(
        sevenz_entry_action(false, 1, &[], "a", false, false, true, 0, &l),
        SevenZAction::DrainSkip
    );
    assert_eq!(
        sevenz_entry_action(false, 1, &[], "empty", false, false, false, 0, &l),
        SevenZAction::CreateEmpty
    );
    assert_eq!(
        sevenz_entry_action(false, 1, &[], "link", false, false, false, 9, &l),
        SevenZAction::DrainSkip
    );
    assert!(matches!(
        sevenz_entry_action(false, 1, &[], "../x", false, true, false, 9, &l),
        SevenZAction::Abort(ArchiveError::Rejected(_))
    ));
    assert_eq!(
        sevenz_entry_action(false, 1, &[], "d", true, false, false, 0, &l),
        SevenZAction::Directory
    );
    assert_eq!(
        sevenz_entry_action(false, 1, &[], "f", false, true, false, 9, &l),
        SevenZAction::File
    );
}

#[test]
fn committed_files_are_listed() {
    let mut t = ExtractTally::new(2);
    t.written(3);
    t.committed("dir/a.txt".to_string());
    t.written(4);
    t.committed("b.txt".to_string());
    assert_eq!(t.summary.extracted_paths, vec!["dir/a.txt".to_string(), "b.txt".to_string()]);
    assert_eq!(t.summary.entries_extracted, 2);
    assert_eq!(t.summary.bytes_written, 7);
}

#[test]
fn cancellation_steps() {
    let mut t = ExtractTally::new(1);
    assert!(!t.entry_step(false));
    assert!(!t.summary.cancelled);
    assert_eq!(t.create_chunk_step(false, 5), ChunkStep::Write);
    assert_eq!((t.summary.bytes_written, t.bytes_done), (5, 5));
    assert_eq!(t.create_chunk_step(false, 0), ChunkStep::EntryDone);
    assert_eq!(t.summary.entries_extracted, 1);
    assert_eq!(t.create_chunk_step(true, 7), ChunkStep::Abandon);
    assert!(t.summary.cancelled);
    assert_eq!(t.bytes_done, 5);
    let mut u = ExtractTally::new(0);
    assert!(u.entry_step(true));
    assert!(u.summary.cancelled);
}

#[test]
fn chunk_counts_beyond_the_range_break_the_limits() {
    let huge = ExtractLimits {
        max_total_bytes: u64::MAX,
        max_file_bytes: u64::MAX,
        max_ratio: 10,
        max_entries: 3,
        max_path_len: 4096,
    };
    assert_eq!(
        copy_chunk(0, u64::MAX, 1, &huge),
        Err(ArchiveError::FileTooLarge { actual: u64::MAX, max: u64::MAX })
    );
    assert_eq!(
        copy_chunk(u64::MAX, 1, 1, &huge),
        Err(ArchiveError::BombDetected { current: u64::MAX, max: u64::MAX })
    );
}

/// A reader whose every read fails.
struct FailingReader;

impl std::io::Read for FailingReader {
    fn read(&mut self, _buf: &mut [u8]) -> std::io::Result<usize> {
        Err(std::io::Error::new(std::io::ErrorKind::Other, "broken"))
    }
}

#[test]
fn copy_stream_hands_the_data_to_the_writer() {
    let mut out: Vec<u8> = Vec::new();
    let r = copy_stream(
        &b"hello"[..],
        &mut out,
        &NoopSink,
        &NoopCancel,
        0,
        0,
        0,
        &ExtractLimits::default(),
    )
    .0;
    assert!(matches!(r, Ok(5)));
    assert_eq!(out, b"hello".to_vec());
}

#[test]
fn a_failed_read_ends_the_drained_data() {
    let mut tally = ExtractTally::new(1);
    let r = drain_reader(
        FailingReader,
        &mut tally,
        &NoopSink,
        &NoopCancel,
        0,
        9,
        9,
        &small_limits(),
    )
    .0;
    assert!(r.is_ok());
    assert_eq!(tally.summary.entries_skipped, 1);
    assert_eq!(tally.bytes_done, 9);
    let l = small_limits();
    let failed: std::io::Result<usize> = Err(std::io::Error::new(std::io::ErrorKind::Other, "x"));
    assert_eq!(drain_step(&failed, 0, 0, &l), DrainStep::End);
    assert_eq!(drain_step(&Ok(0), 5, 0, &l), DrainStep::End);
    assert_eq!(drain_step(&Ok(10), 5, 0, &l), DrainStep::Next(15));
    assert_eq!(
        drain_step(&Ok(10), 595, 0, &l),
        DrainStep::Limit(ArchiveError::FileTooLarge { actual: 605, max: 600 })
    );
}
