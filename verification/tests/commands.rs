use std::sync::atomic::AtomicBool;
use std::sync::Arc;

use archive_core::error::ArchiveError;
use archive_core::events::{
    bytes_event, eta_secs, finish_task, parse_options, parse_overwrite, register_error_dto,
    should_emit, worker_failure, ArchiveErrorDto, ExtractRequest, ProgressEvent, SummaryDto,
};
use archive_core::state::RegisterError;
use archive_core::types::{ExtractSummary, OverwritePolicy};

/// A library error carried inside an `anyhow::Error`, the way the
/// application carries it.
#[derive(Debug)]
struct Carried(ArchiveError);

impl std::fmt::Display for Carried {
    fn fmt(&self, f: &mut std::fmt::Formatter<'_>) -> std::fmt::Result {
        f.write_str(&self.0.message())
    }
}

impl std::error::Error for Carried {}

fn carried(error: ArchiveError) -> anyhow::Error {
    anyhow::Error::new(Carried(error))
}

#[test]
fn from_anyhow_password_required() {
    let err = anyhow::Error::msg("归档已加密，需要密码");
    let dto = ArchiveErrorDto::from_anyhow(&err, err.downcast_ref::<Carried>().map(|c| &c.0));
    assert_eq!(dto.code, "password_required");
}

#[test]
fn from_anyhow_concrete_archive_error() {
    let err = carried(ArchiveError::WrongPassword);
    let dto = ArchiveErrorDto::from_anyhow(&err, err.downcast_ref::<Carried>().map(|c| &c.0));
    assert_eq!(dto.code, "wrong_password");
}

#[test]
fn from_anyhow_bomb_detected() {
    let err = carried(ArchiveError::BombDetected {
        current: 9999,
        max: 1000,
    });
    let dto = ArchiveErrorDto::from_anyhow(&err, err.downcast_ref::<Carried>().map(|c| &c.0));
    assert_eq!(dto.code, "bomb_detected");
}

#[test]
fn from_anyhow_cancelled() {
    let err = carried(ArchiveError::Cancelled);
    let dto = ArchiveErrorDto::from_anyhow(&err, err.downcast_ref::<Carried>().map(|c| &c.0));
    assert_eq!(dto.code, "cancelled");
}

#[test]
fn from_anyhow_keeps_the_library_message() {
    let error = ArchiveError::BombDetected { current: 9999, max: 1000 };
    let err = carried(error.clone());
    let dto = ArchiveErrorDto::from_anyhow(&err, err.downcast_ref::<Carried>().map(|c| &c.0));
    assert_eq!(dto.message, error.message());
    assert_eq!(dto.message, err.to_string());
}

#[test]
fn reports_from_error_text() {
    let dto = ArchiveErrorDto::from_text("Wrong password", None);
    assert_eq!((dto.code.as_str(), dto.message.as_str()), ("wrong_password", "Wrong password"));
    let dto = ArchiveErrorDto::from_text("ignored", Some(&ArchiveError::Cancelled));
    assert_eq!(dto.code, "cancelled");
    assert_eq!(dto.message, ArchiveError::Cancelled.message());
}

#[test]
fn message_codes_by_words() {
    assert_eq!(ArchiveErrorDto::from_message("操作已取消").code, "cancelled");
    assert_eq!(ArchiveErrorDto::from_message("Wrong password").code, "wrong_password");
    assert_eq!(ArchiveErrorDto::from_message("需要 Password").code, "password_required");
    assert_eq!(ArchiveErrorDto::from_message("目标已存在: out/a.txt").code, "conflict");
    assert_eq!(ArchiveErrorDto::from_message("unsupported method").code, "unsupported");
    assert_eq!(ArchiveErrorDto::from_message("归档已损坏").code, "corrupt");
    assert_eq!(ArchiveErrorDto::from_message("disk full").code, "io");
    let dto = ArchiveErrorDto::from_anyhow(&anyhow::Error::msg("file exists"), None);
    assert_eq!(dto.code, "conflict");
    assert_eq!(dto.message, "file exists");
}

#[test]
fn every_library_error_has_its_code() {
    let cases = vec![
        (ArchiveError::PasswordRequired, "password_required"),
        (ArchiveError::Corrupt("x".to_string()), "corrupt"),
        (ArchiveError::Unsupported("x".to_string()), "unsupported"),
        (ArchiveError::UnknownFormat("x".to_string()), "unsupported"),
        (ArchiveError::PathTraversal("x".to_string()), "path_traversal"),
        (
            ArchiveError::PathTooLong {
                path: "p".to_string(),
                len: 9,
                max: 4,
            },
            "path_too_long",
        ),
        (ArchiveError::FileTooLarge { actual: 2, max: 1 }, "file_too_large"),
        (ArchiveError::TooManyEntries { actual: 2, max: 1 }, "too_many_entries"),
        (ArchiveError::Io("boom".to_string()), "io"),
        (ArchiveError::Rejected("目标已存在: a".to_string()), "conflict"),
    ];
    for (error, code) in cases {
        let dto = ArchiveErrorDto::from_archive_error(&error);
        assert_eq!(dto.code, code);
        assert_eq!(dto.message, error.message());
    }
}

#[test]
fn overwrite_names() {
    assert_eq!(parse_overwrite("overwrite"), OverwritePolicy::Overwrite);
    assert_eq!(parse_overwrite("rename"), OverwritePolicy::Rename);
    assert_eq!(parse_overwrite("error"), OverwritePolicy::Error);
    assert_eq!(parse_overwrite("skip"), OverwritePolicy::Skip);
    assert_eq!(parse_overwrite("Overwrite"), OverwritePolicy::Skip);
    let req = ExtractRequest {
        task_id: "t".to_string(),
        source: "a.zip".to_string(),
        dest: "out".to_string(),
        password: Some("pw".to_string()),
        overwrite: "rename".to_string(),
        entries: None,
    };
    let options = parse_options(&req);
    assert_eq!(options.overwrite, OverwritePolicy::Rename);
    assert_eq!(options.password, Some("pw".to_string()));
    assert!(options.skip_symlinks);
}

#[test]
fn refused_registrations_are_reported() {
    let dup = register_error_dto(&RegisterError::Duplicate(Arc::new(AtomicBool::new(false))));
    assert_eq!(dup.code, "duplicate_task");
    assert_eq!(dup.message, "任务 ID 已存在");
    let full = register_error_dto(&RegisterError::TooMany(3));
    assert_eq!(full.code, "too_many_tasks");
    assert_eq!(full.message, "并发任务已达上限 3（当前 3）");
    let failed = worker_failure(false, "panicked");
    assert_eq!(failed.code, "io");
    assert_eq!(failed.message, "解压任务异常: panicked");
    assert_eq!(worker_failure(true, "x").message, "创建任务异常: x");
}

#[test]
fn finished_tasks_are_reported() {
    let mut summary = ExtractSummary::default();
    summary.entries_extracted = 2;
    summary.entries_skipped = 1;
    summary.bytes_written = 42;
    let (event, result) = finish_task(Ok(summary.clone()));
    let expected = SummaryDto {
        entries_extracted: 2,
        entries_skipped: 1,
        bytes_written: 42,
        cancelled: false,
    };
    assert_eq!(
        event,
        ProgressEvent::Finished {
            summary: expected.clone()
        }
    );
    assert_eq!(result, Ok(expected));

    summary.cancelled = true;
    let (event, result) = finish_task(Ok(summary));
    assert_eq!(event, ProgressEvent::Cancelled);
    let err = result.expect_err("cancelled");
    assert_eq!(err.code, "cancelled");
    assert_eq!(err.message, "操作已取消");

    let failure = ArchiveErrorDto::new("corrupt", "bad".to_string());
    let (event, result) = finish_task(Err(failure.clone()));
    assert_eq!(event, ProgressEvent::Error { error: failure.clone() });
    assert_eq!(result, Err(failure));
}

#[test]
fn byte_progress_is_throttled() {
    assert!(should_emit(None, 0));
    assert!(!should_emit(Some(100), 139));
    assert!(should_emit(Some(100), 140));
    assert!(!should_emit(Some(100), 50));
}

#[test]
fn time_left_and_byte_events() {
    assert_eq!(eta_secs(100, 1100, 100), Some(10));
    assert_eq!(eta_secs(2000, 1100, 100), Some(0));
    assert_eq!(eta_secs(0, 0, 100), None);
    assert_eq!(eta_secs(0, 10, 0), None);
    assert_eq!(
        bytes_event(5, 0, None, Some(3)),
        ProgressEvent::Bytes {
            processed: 5,
            total: 0,
            indeterminate: true,
            speed: 0,
            eta_secs: None
        }
    );
    assert_eq!(
        bytes_event(5, 10, Some(2), Some(3)),
        ProgressEvent::Bytes {
            processed: 5,
            total: 10,
            indeterminate: false,
            speed: 2,
            eta_secs: Some(3)
        }
    );
}
