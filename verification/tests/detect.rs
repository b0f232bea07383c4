use archive_core::detect::{compound_ext, detect_format, ext_of, pick_tar_or_single, Single};
use archive_core::error::ArchiveError;
use archive_core::extract::strip_compound_ext;
use archive_core::extractors::{
    dispatcher_for_format, open, partial_route, Extractor, GzExtractor, PartialRoute,
    RarExtractor, UnsupportedExtractor, ZipExtractor,
};
use archive_core::types::ArchiveFormat;

#[test]
fn magic_bytes_win_over_the_extension() {
    assert_eq!(detect_format("a.rar", b"PK\x03\x04rest"), Ok(ArchiveFormat::Zip));
    assert_eq!(detect_format("a.zip", b"PK\x05\x06"), Ok(ArchiveFormat::Zip));
    assert_eq!(detect_format("a.zip", b"7z\xBC\xAF\x27\x1Cxx"), Ok(ArchiveFormat::SevenZ));
    assert_eq!(detect_format("x", b"Rar!\x1A\x07\x01\x00"), Ok(ArchiveFormat::Rar));
    assert_eq!(detect_format("x", b"Rar!\x1A\x07\x00"), Ok(ArchiveFormat::Rar));
}

#[test]
fn compressed_streams_use_the_name_for_tar() {
    assert_eq!(detect_format("a.tar.gz", b"\x1F\x8B\x08"), Ok(ArchiveFormat::TarGz));
    assert_eq!(detect_format("a.gz", b"\x1F\x8B\x08"), Ok(ArchiveFormat::Gzip));
    assert_eq!(detect_format("a.TBZ2", b"BZh9"), Ok(ArchiveFormat::TarBz2));
    assert_eq!(detect_format("a.xz", b"\xFD7zXZ\x00"), Ok(ArchiveFormat::Xz));
    assert_eq!(detect_format("a.tzst", b"\x28\xB5\x2F\xFD"), Ok(ArchiveFormat::TarZst));
    assert_eq!(pick_tar_or_single("dir/b.tgz", Single::Gzip), ArchiveFormat::TarGz);
    assert_eq!(pick_tar_or_single("dir/b.bin", Single::Zstd), ArchiveFormat::Zstd);
}

#[test]
fn ustar_mark_is_tar() {
    let mut head = vec![0u8; 512];
    head[257..262].copy_from_slice(b"ustar");
    assert_eq!(detect_format("noext", &head), Ok(ArchiveFormat::Tar));
}

#[test]
fn extension_is_the_fallback() {
    assert_eq!(detect_format("a.ZIP", b""), Ok(ArchiveFormat::Zip));
    assert_eq!(detect_format("a.tbz", b"xx"), Ok(ArchiveFormat::TarBz2));
    assert_eq!(detect_format("a.zstd", b""), Ok(ArchiveFormat::Zstd));
    assert_eq!(detect_format("a.unknown.tar.xz", b""), Ok(ArchiveFormat::Xz));
    assert_eq!(
        detect_format("notes.txt", b"hello"),
        Err(ArchiveError::UnknownFormat("notes.txt".to_string()))
    );
    assert_eq!(
        detect_format("noext", b""),
        Err(ArchiveError::UnknownFormat("noext".to_string()))
    );
    assert_eq!(ext_of("d/A.Tar.GZ"), Some("gz".to_string()));
    assert_eq!(compound_ext("d/A.Tar.GZ"), Some("tar.gz".to_string()));
    assert_eq!(ext_of("d/.bashrc"), None);
}

#[test]
fn single_file_output_names() {
    assert_eq!(strip_compound_ext("dir/data.txt.gz"), "data.txt");
    assert_eq!(strip_compound_ext("dir/Data.TXT.XZ"), "Data.TXT");
    assert_eq!(strip_compound_ext("a.tar.gz"), "a");
    assert_eq!(strip_compound_ext("file.bin"), "file.bin.out");
}

#[test]
fn dispatch_by_format() {
    assert_eq!(
        dispatcher_for_format(ArchiveFormat::Xz, false),
        Extractor::Single(GzExtractor::Xz)
    );
    assert_eq!(
        dispatcher_for_format(ArchiveFormat::Rar, true),
        Extractor::Rar(RarExtractor)
    );
    assert_eq!(
        dispatcher_for_format(ArchiveFormat::Rar, false),
        Extractor::Unsupported(UnsupportedExtractor(ArchiveFormat::Rar))
    );
    let tgz = dispatcher_for_format(ArchiveFormat::TarGz, false);
    assert_eq!(tgz.format_kind(), ArchiveFormat::TarGz);
    assert!(!tgz.supports_partial());
    let zip = open("x.bin", b"PK\x03\x04", true).expect("zip");
    assert_eq!(zip.format_kind(), ArchiveFormat::Zip);
    assert!(zip.supports_partial() && zip.supports_password() && zip.supports_test());
    assert!(open("x.bin", b"", true).is_err());
    let rar = open("x.rar", b"Rar!\x1a\x07\x01\x00", false).expect("rar");
    assert_eq!(rar, Extractor::Unsupported(UnsupportedExtractor(ArchiveFormat::Rar)));
}

#[test]
fn partial_extraction_routes() {
    let zip = Extractor::Zip(ZipExtractor);
    assert_eq!(partial_route(&zip, 0), PartialRoute::Whole);
    assert_eq!(partial_route(&zip, 2), PartialRoute::Chosen);
    let tgz = dispatcher_for_format(ArchiveFormat::TarGz, false);
    assert_eq!(
        partial_route(&tgz, 1),
        PartialRoute::Refused(ArchiveError::Unsupported("该格式不支持部分解压".to_string()))
    );
}

#[test]
fn format_names() {
    assert_eq!(ArchiveFormat::SevenZ.as_str(), "7z");
    assert_eq!(ArchiveFormat::TarZst.as_str(), "tar.zst");
    assert_eq!(
        UnsupportedExtractor(ArchiveFormat::Rar).unsupported_error(),
        ArchiveError::Unsupported("rar 需要启用 `rar` feature（编译时 --features rar）".to_string())
    );
}
