use archive_core::extract::{header_read_error, uses_aes};
use archive_core::extractors::partial_unsupported;
use archive_core::extract::{
    decode_zip_name, normalize_filter, sevenz_entry_wanted, sevenz_filter, zip_entry_action,
    zip_entry_wanted, zip_filter, zip_open_error, ZipEntryAction,
};
use archive_core::error::ArchiveError;

#[test]
fn utf8_name_unchanged() {
    assert_eq!(decode_zip_name("hello.txt".as_bytes()), "hello.txt");
    assert_eq!(decode_zip_name("测试.txt".as_bytes()), "测试.txt");
}

#[test]
fn gbk_name_decoded() {
    let gbk_bytes = b"\xb2\xe2\xca\xd4.txt";
    assert_eq!(decode_zip_name(gbk_bytes), "测试.txt");
}

#[test]
fn filters_are_normalised() {
    assert_eq!(normalize_filter("\\dir\\a.txt"), "dir/a.txt");
    assert_eq!(normalize_filter("//x/"), "x/");
    assert_eq!(
        zip_filter(&["/a".to_string(), "b\\c".to_string()]),
        vec!["a".to_string(), "b/c".to_string()]
    );
    assert_eq!(sevenz_filter(&["d\\e".to_string()]), vec!["d/e".to_string()]);
}

#[test]
fn zip_partial_selection() {
    let filter = zip_filter(&["keep.txt".to_string(), "dir/".to_string()]);
    assert!(zip_entry_wanted(&filter, "keep.txt"));
    assert!(zip_entry_wanted(&filter, "dir/x.txt"));
    assert!(!zip_entry_wanted(&filter, "skip.txt"));
    assert!(!zip_entry_wanted(&filter, "dirty.txt"));
    assert_eq!(zip_entry_action(&filter, "dirty.txt", false), ZipEntryAction::NotWanted);
    assert!(zip_entry_wanted(&[], "anything"));
    let plain = zip_filter(&["dir".to_string()]);
    assert!(zip_entry_wanted(&plain, "dir/a.txt"));
    assert!(!zip_entry_wanted(&plain, "directory/a.txt"));
    assert_eq!(zip_entry_action(&filter, "skip.txt", false), ZipEntryAction::NotWanted);
    assert_eq!(zip_entry_action(&filter, "dir/", true), ZipEntryAction::Directory);
    assert_eq!(zip_entry_action(&filter, "keep.txt", false), ZipEntryAction::File);
}

#[test]
fn sevenz_partial_selection() {
    let filter = sevenz_filter(&["dir/".to_string(), "a.txt".to_string()]);
    assert!(sevenz_entry_wanted(&filter, "dir/b.txt"));
    assert!(sevenz_entry_wanted(&filter, "a.txt"));
    assert!(!sevenz_entry_wanted(&filter, "dirx/b.txt"));
    assert!(!sevenz_entry_wanted(&filter, "b.txt"));
}

#[test]
fn zip_password_failures() {
    assert_eq!(zip_open_error(true, "", false), Some(ArchiveError::PasswordRequired));
    assert_eq!(zip_open_error(true, "", true), Some(ArchiveError::WrongPassword));
    assert_eq!(
        zip_open_error(false, "Invalid PASSWORD given", true),
        Some(ArchiveError::WrongPassword)
    );
    assert_eq!(zip_open_error(false, "bad crc", true), None);
}

#[test]
fn sevenz_header_failures() {
    assert_eq!(header_read_error("Bad PASSWORD"), ArchiveError::PasswordRequired);
    assert_eq!(header_read_error("data is encrypted"), ArchiveError::PasswordRequired);
    assert_eq!(
        header_read_error("bad signature"),
        ArchiveError::Corrupt("读取 7z 头部失败: bad signature".to_string())
    );
}

#[test]
fn partial_extraction_refusal() {
    assert_eq!(
        partial_unsupported(),
        ArchiveError::Unsupported("该格式不支持部分解压".to_string())
    );
}

#[test]
fn encrypted_sevenz_coders() {
    assert!(uses_aes(&[vec![0x21], vec![0x06, 0xF1, 0x07, 0x01]]));
    assert!(!uses_aes(&[vec![0x21], vec![0x06, 0xF1, 0x07]]));
    assert!(!uses_aes(&[]));
}
