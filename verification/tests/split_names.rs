use archive_core::volumes::{seek_target, SeekOrigin};
use archive_core::volumes::is_sevenz_volume_name;
use archive_core::extractors::resolve_first_volume;
use archive_core::volumes::{
    find_numeric_suffix, find_z_suffix, first_volume_candidates, first_volume_layout,
    first_volume_path, locate, numbered_volume_name, total_size, z_volume_layout, z_volume_name,
    VolumeError,
};

#[test]
fn test_find_numeric_suffix() {
    assert_eq!(
        find_numeric_suffix("archive.7z.001"),
        Some(("archive.7z.", "001"))
    );
    assert_eq!(
        find_numeric_suffix("archive.zip.001"),
        Some(("archive.zip.", "001"))
    );
    assert_eq!(find_numeric_suffix("archive.7z"), None);
    assert_eq!(find_numeric_suffix("archive.rar"), None);
}

#[test]
fn test_find_z_suffix() {
    assert_eq!(find_z_suffix("archive.z01"), Some(("archive", "01")));
    assert_eq!(find_z_suffix("archive.z1"), Some(("archive", "1")));
    assert_eq!(find_z_suffix("archive.zip"), None);
}

#[test]
fn candidates_for_each_volume_scheme() {
    assert_eq!(
        first_volume_candidates("vol/data.part02.rar"),
        vec!["data.part01.rar".to_string()]
    );
    assert_eq!(
        first_volume_candidates("vol/Data.R01"),
        vec!["Data.rar".to_string()]
    );
    assert_eq!(
        first_volume_candidates("a.7z.002"),
        vec!["a.7z.001".to_string()]
    );
    assert_eq!(
        first_volume_candidates("a.zip.003"),
        vec!["a.zip.001".to_string()]
    );
    assert_eq!(first_volume_candidates("a.z02"), vec!["a.zip".to_string()]);
}

#[test]
fn first_volumes_are_not_redirected() {
    assert!(first_volume_candidates("data.part01.rar").is_empty());
    assert!(first_volume_candidates("a.7z.001").is_empty());
    assert!(first_volume_candidates("a.zip").is_empty());
    assert!(first_volume_candidates("a.z01").is_empty());
    assert!(first_volume_candidates("plain.rar").is_empty());
}

#[test]
fn first_volume_path_needs_the_volume_to_exist() {
    let found = first_volume_path("dir/x.part03.rar", |p: &str| p == "dir/x.part01.rar");
    assert_eq!(found, Some("dir/x.part01.rar".to_string()));
    let missing = first_volume_path("dir/x.part03.rar", |_p: &str| false);
    assert_eq!(missing, None);
    let resolved = resolve_first_volume("s.7z.004", |p: &str| p == "s.7z.001");
    assert_eq!(resolved, Some("s.7z.001".to_string()));
}

#[test]
fn volume_names_keep_their_width() {
    assert_eq!(numbered_volume_name("a.7z.", 2, 3), "a.7z.002");
    assert_eq!(numbered_volume_name("a.7z.", 1234, 3), "a.7z.1234");
    assert_eq!(z_volume_name("a", 3, 2), "a.z03");
}

#[test]
fn first_volume_layout_round_trip() {
    let (base, width) = first_volume_layout("Big.7Z.001").expect("first volume");
    assert_eq!(base, "Big.7Z.");
    assert_eq!(width, 3);
    assert_eq!(numbered_volume_name(&base, 1, width), "Big.7Z.001");
    assert_eq!(first_volume_layout("big.7z.002"), Err(VolumeError::NotFirst));
    assert_eq!(first_volume_layout("big.7z"), Err(VolumeError::NotSplit));
    assert_eq!(
        z_volume_layout("Old.z01"),
        Some(("Old".to_string(), 2))
    );
}

#[test]
fn positions_of_the_joined_stream() {
    let sizes = [10u64, 5, 7];
    assert_eq!(total_size(&sizes), 22);
    assert_eq!(locate(&sizes, 0), Some((0, 0)));
    assert_eq!(locate(&sizes, 9), Some((0, 9)));
    assert_eq!(locate(&sizes, 10), Some((1, 0)));
    assert_eq!(locate(&sizes, 16), Some((2, 1)));
    assert_eq!(locate(&sizes, 22), Some((2, 7)));
    assert_eq!(locate(&sizes, 23), None);
}

#[test]
fn seeks_in_the_joined_stream() {
    assert_eq!(seek_target(SeekOrigin::Start(5), 0, 10), Some(5));
    assert_eq!(seek_target(SeekOrigin::Current(-3), 7, 10), Some(4));
    assert_eq!(seek_target(SeekOrigin::Current(-8), 7, 10), None);
    assert_eq!(seek_target(SeekOrigin::End(-10), 0, 10), Some(0));
    assert_eq!(seek_target(SeekOrigin::Start(u64::MAX), 0, 10), None);
}

#[test]
fn split_sevenz_names() {
    assert!(is_sevenz_volume_name("Data.7Z.001"));
    assert!(!is_sevenz_volume_name("data.7z"));
    assert!(!is_sevenz_volume_name("data.7z.part"));
    assert!(!is_sevenz_volume_name("data.7z."));
}
