use archive_core::creators::{
    creator_for_path, days_to_ymd, entry_name_trimmed, marks_directory, supported_formats,
    tar_level, time_of_day, zip_level, zip_timestamp, Creator, SevenZCreator, TarCreator,
    ZipCreator,
};
use archive_core::error::ArchiveError;
use archive_core::types::ArchiveFormat;

#[test]
fn creators_by_destination_name() {
    assert_eq!(creator_for_path("out/x.ZIP"), Ok(Creator::Zip(ZipCreator)));
    assert_eq!(creator_for_path("x.7z"), Ok(Creator::SevenZ(SevenZCreator)));
    assert_eq!(creator_for_path("x.tar.gz"), Ok(Creator::Tar(TarCreator::gzip())));
    assert_eq!(creator_for_path("x.tgz"), Ok(Creator::Tar(TarCreator::gzip())));
    assert_eq!(creator_for_path("x.txz"), Ok(Creator::Tar(TarCreator::xz())));
    assert_eq!(creator_for_path("x.tar"), Ok(Creator::Tar(TarCreator::plain())));
    assert_eq!(
        creator_for_path("x.rar"),
        Err(ArchiveError::Rejected(
            "暂不支持的目标格式（支持 zip/7z/tar.gz/tar.xz/tar）：x.rar".to_string()
        ))
    );
    assert_eq!(
        creator_for_path("out/a.tar.xz").unwrap().format_kind(),
        ArchiveFormat::TarXz
    );
}

#[test]
fn creatable_formats() {
    assert_eq!(
        supported_formats(),
        vec![
            ArchiveFormat::Zip,
            ArchiveFormat::SevenZ,
            ArchiveFormat::TarGz,
            ArchiveFormat::TarXz,
            ArchiveFormat::Tar
        ]
    );
}

#[test]
fn compression_levels_are_clamped() {
    assert_eq!(zip_level(None), 6);
    assert_eq!(zip_level(Some(-3)), 0);
    assert_eq!(zip_level(Some(12)), 9);
    assert_eq!(tar_level(Some(0)), 1);
    assert_eq!(tar_level(Some(5)), 5);
    assert_eq!(tar_level(None), 6);
}

#[test]
fn civil_dates_of_unix_days() {
    assert_eq!(days_to_ymd(0), (1970, 1, 1));
    assert_eq!(days_to_ymd(59), (1970, 3, 1));
    assert_eq!(days_to_ymd(11016), (2000, 2, 29));
    assert_eq!(days_to_ymd(19723), (2024, 1, 1));
    assert_eq!(days_to_ymd(-1), (1969, 12, 31));
    assert_eq!(time_of_day(86399), (23, 59, 59));
    assert_eq!(time_of_day(3661), (1, 1, 1));
}

#[test]
fn entry_names_of_new_archives() {
    assert_eq!(entry_name_trimmed("sub/dir/").unwrap(), "sub/dir");
    assert_eq!(entry_name_trimmed("a\\b.txt").unwrap(), "a/b.txt");
    assert!(entry_name_trimmed("../x").is_err());
    assert!(marks_directory("sub/"));
    assert!(!marks_directory("sub"));
}

#[test]
fn zip_timestamps_need_a_storable_date() {
    assert!(zip_timestamp(0).is_none());
    let noon = zip_timestamp(1_704_110_400).expect("2024-01-01 12:00:00");
    assert_eq!(
        (noon.year(), noon.month(), noon.day(), noon.hour(), noon.minute()),
        (2024, 1, 1, 12, 0)
    );
    assert!(zip_timestamp(4_354_819_200).is_none());
    // 2024-01-01 12:34:57 keeps its seconds rounded down to 56.
    let t = zip_timestamp(1_704_110_400 + 34 * 60 + 57).expect("storable");
    assert_eq!(
        (t.year(), t.month(), t.day(), t.hour(), t.minute(), t.second()),
        (2024, 1, 1, 12, 34, 56)
    );
}

#[test]
fn unsupported_create_format_is_rejected() {
    let result = creator_for_path("/tmp/archive-core-create/x.rar");
    assert!(result.is_err(), "RAR 创建应被拒绝（当前仅支持 zip）");
}

#[test]
fn every_supported_format_has_a_creator() {
    let formats = supported_formats();
    assert_eq!(
        formats,
        vec![
            ArchiveFormat::Zip,
            ArchiveFormat::SevenZ,
            ArchiveFormat::TarGz,
            ArchiveFormat::TarXz,
            ArchiveFormat::Tar
        ]
    );
    for f in formats {
        let creator = creator_for_path(&format!("x.{}", f.as_str())).expect("creatable");
        assert_eq!(creator.format_kind(), f);
    }
}
