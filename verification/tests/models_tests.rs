//! Tests for file entries, sorting and the inventory.

use std::cmp::Ordering;
use unpackrr::models::{FileEntry, FileEntryList, SortBy};
use unpackrr::operations::BA2FileInfo;

fn create_test_entry(name: &str, size: u64, num_files: u32, is_bad: bool) -> FileEntry {
    FileEntry::new(
        name.to_string(),
        size,
        num_files,
        "TestMod".to_string(),
        format!("/path/to/{}", name),
        is_bad,
    )
}

#[test]
fn test_file_entry_creation() {
    let entry = create_test_entry("test.ba2", 1000, 10, false);
    assert_eq!(entry.file_name, "test.ba2");
    assert_eq!(entry.file_size, 1000);
    assert_eq!(entry.num_files, 10);
    assert!(!entry.is_bad);
}

#[test]
fn test_file_entry_display_methods() {
    let entry = create_test_entry("test.ba2", 1500, 25, false);
    assert_eq!(entry.name_display(), "test.ba2");
    assert_eq!(entry.file_count_display(), "25");
    assert_eq!(entry.mod_display(), "TestMod");
    assert!(!entry.size_display().is_empty());
}

#[test]
fn test_sorting_by_name() {
    let mut entries = vec![
        create_test_entry("zebra.ba2", 1000, 10, false),
        create_test_entry("alpha.ba2", 2000, 20, false),
        create_test_entry("beta.ba2", 1500, 15, false),
    ];

    // Ascending
    entries.sort_by(|a, b| a.compare(b, SortBy::Name));
    assert_eq!(entries[0].file_name, "alpha.ba2");
    assert_eq!(entries[1].file_name, "beta.ba2");
    assert_eq!(entries[2].file_name, "zebra.ba2");
}

#[test]
fn test_sorting_by_size() {
    let mut entries = vec![
        create_test_entry("small.ba2", 1000, 10, false),
        create_test_entry("large.ba2", 3000, 30, false),
        create_test_entry("medium.ba2", 2000, 20, false),
    ];

    // Ascending (Natural)
    entries.sort_by(|a, b| a.compare(b, SortBy::Size));
    assert_eq!(entries[0].file_name, "small.ba2");
    assert_eq!(entries[1].file_name, "medium.ba2");
    assert_eq!(entries[2].file_name, "large.ba2");
}

#[test]
fn test_sorting_by_file_count() {
    let mut entries = vec![
        create_test_entry("few.ba2", 1000, 5, false),
        create_test_entry("many.ba2", 1000, 50, false),
        create_test_entry("some.ba2", 1000, 20, false),
    ];

    // Ascending (Natural)
    entries.sort_by(|a, b| a.compare(b, SortBy::FileCount));
    assert_eq!(entries[0].file_name, "few.ba2");
    assert_eq!(entries[1].file_name, "some.ba2");
    assert_eq!(entries[2].file_name, "many.ba2");
}

#[test]
fn test_default_ordering() {
    let small = create_test_entry("small.ba2", 1000, 10, false);
    let large = create_test_entry("large.ba2", 2000, 20, false);

    // The default ordering is still by size, descending.
    assert_eq!(small.cmp(&large), Ordering::Greater);
    assert_eq!(large.cmp(&small), Ordering::Less);
}

#[test]
fn test_file_entry_list_sorting() {
    let mut list = FileEntryList::from_vec(vec![
        create_test_entry("zebra.ba2", 1000, 10, false),
        create_test_entry("alpha.ba2", 2000, 20, false),
    ]);

    // Ascending
    list.sort_by(SortBy::Name, false);
    assert_eq!(list.entries()[0].file_name, "alpha.ba2");
    assert_eq!(list.entries()[1].file_name, "zebra.ba2");

    // Descending
    list.sort_by(SortBy::Name, true);
    assert_eq!(list.entries()[0].file_name, "zebra.ba2");
    assert_eq!(list.entries()[1].file_name, "alpha.ba2");
}

#[test]
fn test_bad_file_handling() {
    let list = FileEntryList::from_vec(vec![
        create_test_entry("good1.ba2", 1000, 10, false),
        create_test_entry("bad.ba2", 2000, 0, true),
        create_test_entry("good2.ba2", 3000, 30, false),
    ]);

    assert_eq!(list.bad_file_count(), 1);

    let bad_indices = list.bad_file_indices();
    assert_eq!(bad_indices, vec![1]);
}

#[test]
fn test_filter_bad_files() {
    let mut list = FileEntryList::from_vec(vec![
        create_test_entry("good1.ba2", 1000, 10, false),
        create_test_entry("bad.ba2", 2000, 0, true),
        create_test_entry("good2.ba2", 3000, 30, false),
    ]);

    list.filter_bad_files();
    assert_eq!(list.len(), 2);
    assert_eq!(list.bad_file_count(), 0);
}

#[test]
fn test_from_ba2fileinfo() {
    let ba2_info = BA2FileInfo {
        file_name: "test.ba2".to_string(),
        file_size: 1000,
        num_files: 10,
        dir_name: "TestMod".to_string(),
        full_path: "/path/to/test.ba2".to_string(),
        is_bad: false,
    };

    let entry: FileEntry = ba2_info.into();
    assert_eq!(entry.file_name, "test.ba2");
    assert_eq!(entry.file_size, 1000);
}

#[test]
fn totals_sum_sizes_and_counts() {
    let list = FileEntryList::from_vec(vec![
        create_test_entry("a.ba2", 1000, 10, false),
        create_test_entry("b.ba2", 2500, 7, false),
    ]);
    assert_eq!(list.total_size(), 3500);
    assert_eq!(list.total_file_count(), 17);
}

#[test]
fn totals_saturate_instead_of_overflowing() {
    let list = FileEntryList::from_vec(vec![
        create_test_entry("a.ba2", u64::MAX, u32::MAX, false),
        create_test_entry("b.ba2", 5, 5, false),
    ]);
    assert_eq!(list.total_size(), u64::MAX);
    assert_eq!(list.total_file_count(), u32::MAX);
}

#[test]
fn remove_takes_out_one_entry() {
    let mut list = FileEntryList::from_vec(vec![
        create_test_entry("a.ba2", 1, 1, false),
        create_test_entry("b.ba2", 2, 2, false),
    ]);
    let removed = list.remove(0).unwrap();
    assert_eq!(removed.file_name, "a.ba2");
    assert_eq!(list.len(), 1);
    assert!(list.remove(5).is_none());
    assert_eq!(list.len(), 1);
}

#[test]
fn sorting_keeps_equal_entries_in_order() {
    let mut list = FileEntryList::from_vec(vec![
        create_test_entry("first.ba2", 1000, 1, false),
        create_test_entry("second.ba2", 1000, 2, false),
        create_test_entry("third.ba2", 1000, 3, false),
        create_test_entry("tiny.ba2", 1, 4, false),
    ]);
    // All but one entry share a size: the sort is stable among them.
    list.sort_by(SortBy::Size, false);
    assert_eq!(list.entries()[0].file_name, "tiny.ba2");
    assert_eq!(list.entries()[1].file_name, "first.ba2");
    assert_eq!(list.entries()[2].file_name, "second.ba2");
    assert_eq!(list.entries()[3].file_name, "third.ba2");
}

#[test]
fn entries_mut_edits_in_place() {
    let mut list = FileEntryList::from_vec(vec![create_test_entry("a.ba2", 1, 1, false)]);
    list.entries_mut().push(create_test_entry("b.ba2", 2, 2, false));
    assert_eq!(list.len(), 2);
    assert_eq!(list.entries()[1].file_name, "b.ba2");
}
