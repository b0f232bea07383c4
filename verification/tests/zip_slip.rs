use archive_core::error::ArchiveError;
use archive_core::safety::{
    commit_first, commit_next, CommitAction, isolation_dir_name, parent_dir, rename_candidate_path, resolve_target_path, sanitize_entry_path,
    sanitize_entry_path_limited, temp_sibling_name,
};
use archive_core::types::OverwritePolicy;

#[test]
fn sanitize_rejects_traversal() {
    let dest = "/tmp";
    assert!(sanitize_entry_path("../evil.exe", dest).is_err());
    assert!(sanitize_entry_path("..\\..\\evil", dest).is_err());
    assert!(sanitize_entry_path("dir/../../evil", dest).is_err());
}

#[test]
fn sanitize_rejects_windows_drive_and_reserved() {
    let dest = "/tmp";
    assert!(sanitize_entry_path("C:/Windows/x", dest).is_err());
    assert!(sanitize_entry_path("CON.txt", dest).is_err());
    assert!(sanitize_entry_path("dir/NUL", dest).is_err());
    assert!(sanitize_entry_path("file:bad", dest).is_err());
}

#[test]
fn sanitize_is_side_effect_free() {
    let destination = "sanitize-check-missing-dir/does-not-exist";
    assert!(!std::path::Path::new(destination).exists());
    let safe = sanitize_entry_path("deep/path/file.txt", destination).expect("safe path");
    assert_eq!(safe, "deep/path/file.txt");
    assert!(
        !std::path::Path::new(destination).exists(),
        "路径验证不得创建输出目录"
    );
}

#[test]
fn sanitize_normalises_accepted_paths() {
    assert_eq!(sanitize_entry_path("a\\b\\c.txt", "").unwrap(), "a/b/c.txt");
    assert_eq!(sanitize_entry_path("./a//b/./c", "").unwrap(), "a/b/c");
    assert_eq!(sanitize_entry_path("dir/", "").unwrap(), "dir");
    let once = sanitize_entry_path("x/./y\\z", "").unwrap();
    assert_eq!(sanitize_entry_path(&once, "").unwrap(), once);
}

#[test]
fn sanitize_refusals_and_messages() {
    assert_eq!(
        sanitize_entry_path("", ""),
        Err(ArchiveError::Rejected("空路径条目".to_string()))
    );
    assert_eq!(
        sanitize_entry_path("/etc/passwd", ""),
        Err(ArchiveError::Rejected("拒绝绝对路径条目: /etc/passwd".to_string()))
    );
    assert_eq!(
        sanitize_entry_path("a/../b", ""),
        Err(ArchiveError::Rejected("拒绝包含 .. 的条目: a/../b".to_string()))
    );
    assert!(sanitize_entry_path("./.", "").is_err());
    assert!(sanitize_entry_path("a/b?.txt", "").is_err());
    assert!(sanitize_entry_path("a/b\u{1}.txt", "").is_err());
    assert!(sanitize_entry_path("lpt9.log", "").is_err());
    assert!(sanitize_entry_path("COM10.txt", "").is_ok());
}

#[test]
fn sanitize_limits_the_path_length() {
    assert_eq!(
        sanitize_entry_path_limited("abcdef", "", 5),
        Err(ArchiveError::PathTooLong {
            path: "abcdef".to_string(),
            len: 6,
            max: 5
        })
    );
    assert_eq!(sanitize_entry_path_limited("abcde", "", 5).unwrap(), "abcde");
    let long_name = "a".repeat(256);
    assert!(sanitize_entry_path(&long_name, "").is_err());
}

#[test]
fn free_targets_are_used_as_they_are() {
    for policy in [
        OverwritePolicy::Skip,
        OverwritePolicy::Overwrite,
        OverwritePolicy::Rename,
        OverwritePolicy::Error,
    ] {
        let r = resolve_target_path("out/a.txt", policy, |_p: &str| false);
        assert_eq!(r, Ok(Some("out/a.txt".to_string())));
    }
}

#[test]
fn existing_targets_follow_the_policy() {
    let taken = |p: &str| p == "out/a.txt";
    assert_eq!(resolve_target_path("out/a.txt", OverwritePolicy::Skip, taken), Ok(None));
    assert_eq!(
        resolve_target_path("out/a.txt", OverwritePolicy::Overwrite, taken),
        Ok(Some("out/a.txt".to_string()))
    );
    let err = resolve_target_path("out/a.txt", OverwritePolicy::Error, taken).unwrap_err();
    assert_eq!(err, ArchiveError::Rejected("目标已存在: out/a.txt".to_string()));
    assert_eq!(
        archive_core::events::ArchiveErrorDto::from_archive_error(&err).code,
        "conflict"
    );
    assert_eq!(
        resolve_target_path("out/a.txt", OverwritePolicy::Rename, taken),
        Ok(Some("out/a (1).txt".to_string()))
    );
}

#[test]
fn rename_skips_taken_candidates() {
    let taken = |p: &str| p == "data.txt" || p == "data (1).txt" || p == "data (2).txt";
    assert_eq!(
        resolve_target_path("data.txt", OverwritePolicy::Rename, taken),
        Ok(Some("data (3).txt".to_string()))
    );
    let all_taken = |_p: &str| true;
    assert_eq!(
        resolve_target_path("d/x.bin", OverwritePolicy::Rename, all_taken),
        Err(ArchiveError::Rejected("重命名冲突过多: d/x.bin".to_string()))
    );
}

#[test]
fn rename_candidate_names() {
    assert_eq!(rename_candidate_path("out/a.txt", 1), "out/a (1).txt");
    assert_eq!(rename_candidate_path("out/archive.tar.gz", 12), "out/archive.tar (12).gz");
    assert_eq!(rename_candidate_path("out/README", 2), "out/README (2)");
    assert_eq!(rename_candidate_path("out/.hidden", 3), "out/.hidden (3)");
    assert_eq!(rename_candidate_path("a.", 1), "a (1).");
}

#[test]
fn temporary_names() {
    assert_eq!(temp_sibling_name("a.txt", 12, 3, "tmp"), ".a.txt.extractr-12-3.tmp");
    assert_eq!(isolation_dir_name("out", 7, 0), ".out.isolate-7-0");
}

#[test]
fn parents_of_relative_paths() {
    assert_eq!(parent_dir("a/b/c.txt"), "a/b");
    assert_eq!(parent_dir("c.txt"), "");
    assert_eq!(parent_dir("d/e"), "d");
}

#[test]
fn commit_steps_keep_the_old_target() {
    assert_eq!(commit_first(true), CommitAction::MoveOldAside);
    assert_eq!(commit_first(false), CommitAction::PlaceNew);
    assert_eq!(commit_next(CommitAction::MoveOldAside, true, true), CommitAction::PlaceNew);
    assert_eq!(commit_next(CommitAction::MoveOldAside, false, true), CommitAction::Fail);
    assert_eq!(commit_next(CommitAction::PlaceNew, true, true), CommitAction::RemoveBackup);
    assert_eq!(commit_next(CommitAction::PlaceNew, true, false), CommitAction::Done);
    assert_eq!(commit_next(CommitAction::PlaceNew, false, true), CommitAction::RestoreOld);
    assert_eq!(commit_next(CommitAction::PlaceNew, false, false), CommitAction::Fail);
    assert_eq!(commit_next(CommitAction::RestoreOld, true, true), CommitAction::Fail);
    assert_eq!(commit_next(CommitAction::RemoveBackup, true, true), CommitAction::Done);
    assert_eq!(commit_next(CommitAction::RemoveBackup, false, true), CommitAction::Fail);
}
