//! Tests for the path helpers.

use unpackrr::operations::path::{get_parent, normalize_separators, paths_equal};

#[test]
fn test_paths_equal() {
    let path1 = "test/path";
    let path2 = "test/path";
    assert!(paths_equal(path1, path2));

    // Comparison on this platform is case-sensitive.
    let path3 = "TEST/PATH";
    assert!(!paths_equal(path1, path3));
}

#[test]
fn test_normalize_separators() {
    assert_eq!(
        normalize_separators("C:\\Games\\Fallout4\\Data"),
        "C:/Games/Fallout4/Data"
    );
    assert_eq!(
        normalize_separators("C:/Games/Fallout4/Data"),
        "C:/Games/Fallout4/Data"
    );
}

#[test]
fn test_get_parent() {
    let parent = get_parent("/some/path/to/file.txt").unwrap();
    assert_eq!(parent, "/some/path/to");

    // A root has no parent.
    assert!(get_parent("/").is_none());
}

#[test]
fn test_get_default_ba2_handler_returns_none() {
    let result = unpackrr::platform::get_default_ba2_handler().unwrap();
    assert_eq!(result, None);
}
