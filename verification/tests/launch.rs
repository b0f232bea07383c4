use archive_core::launch::{parse_open_action, OpenAction};

fn args(list: &[&str]) -> Vec<String> {
    list.iter().map(|s| s.to_string()).collect()
}

#[test]
fn context_menu_actions() {
    let a = args(&["app", "--extract-here", "/x/a.zip"]);
    assert_eq!(
        parse_open_action(&a, &[true; 3], &[true; 3]),
        Some(OpenAction::ExtractHere {
            path: "/x/a.zip".to_string()
        })
    );
    let b = args(&["app", "--extract-to-subdir", "b.7z"]);
    assert_eq!(
        parse_open_action(&b, &[false; 3], &[false; 3]),
        Some(OpenAction::ExtractToSubdir {
            path: "b.7z".to_string()
        })
    );
    let c = args(&["app", "--extract-here"]);
    assert_eq!(parse_open_action(&c, &[true; 2], &[true; 2]), None);
}

#[test]
fn compress_needs_an_existing_path() {
    let a = args(&["app", "--compress", "/data"]);
    assert_eq!(
        parse_open_action(&a, &[true, true, true], &[false; 3]),
        Some(OpenAction::Compress {
            path: "/data".to_string()
        })
    );
    assert_eq!(parse_open_action(&a, &[true, true, false], &[false; 3]), None);
    let b = args(&["app", "--compress", "/missing", "doc.RAR"]);
    assert_eq!(
        parse_open_action(&b, &[true, true, false, true], &[false, false, false, true]),
        Some(OpenAction::Open {
            path: "doc.RAR".to_string()
        })
    );
}

#[test]
fn bare_archive_paths_are_opened() {
    let a = args(&["app", "notes.txt", "x.tar.zst"]);
    assert_eq!(
        parse_open_action(&a, &[true; 3], &[true; 3]),
        Some(OpenAction::Open {
            path: "x.tar.zst".to_string()
        })
    );
    assert_eq!(parse_open_action(&a, &[true; 3], &[true, true, false]), None);
    let only_program = args(&["app.zip"]);
    assert_eq!(parse_open_action(&only_program, &[true], &[true]), None);
}
