//! Tests for the scanning core: filters, header reading, assembly.

use unpackrr::config::AppConfig;
use unpackrr::operations::scan::{scan_candidates, scan_mod_folder, FileCandidate, FolderCandidates};

fn header_bytes(file_count: u32) -> Vec<u8> {
    let mut data = Vec::new();
    data.extend_from_slice(b"BTDX");
    data.extend_from_slice(&1u32.to_le_bytes());
    data.extend_from_slice(b"GNRL");
    data.extend_from_slice(&file_count.to_le_bytes());
    data.extend_from_slice(&0u64.to_le_bytes());
    data
}

fn candidate(folder: &str, name: &str, count: u32) -> FileCandidate {
    FileCandidate {
        file_name: name.to_string(),
        full_path: format!("/data/{}/{}", folder, name),
        file_size: 1000,
        header_bytes: Some(header_bytes(count)),
    }
}

fn test_tree() -> Vec<FolderCandidates> {
    vec![
        FolderCandidates {
            dir_name: "TestMod1".to_string(),
            files: vec![
                candidate("TestMod1", "TestMod1_Main.ba2", 10),
                candidate("TestMod1", "TestMod1_Textures.ba2", 10),
                FileCandidate {
                    file_name: "readme.txt".to_string(),
                    full_path: "/data/TestMod1/readme.txt".to_string(),
                    file_size: 10,
                    header_bytes: None,
                },
            ],
        },
        FolderCandidates {
            dir_name: "TestMod2".to_string(),
            files: vec![
                candidate("TestMod2", "TestMod2_Main.ba2", 10),
                candidate("TestMod2", "TestMod2_Sounds.ba2", 10),
            ],
        },
    ]
}

fn config_with_postfixes() -> AppConfig {
    let mut config = AppConfig::default();
    config.extraction.postfixes = vec!["_main".to_string(), "_textures".to_string()];
    config
}

#[test]
fn scan_keeps_exactly_the_postfix_matches() {
    let files = scan_candidates(&test_tree(), &config_with_postfixes());

    assert_eq!(files.len(), 3);
    let names: Vec<String> = files.iter().map(|f| f.file_name.clone()).collect();
    assert!(names.contains(&"TestMod1_Main.ba2".to_string()));
    assert!(names.contains(&"TestMod1_Textures.ba2".to_string()));
    assert!(names.contains(&"TestMod2_Main.ba2".to_string()));
    // The sounds archive matches no postfix; the text file is no archive.
    assert!(!names.contains(&"TestMod2_Sounds.ba2".to_string()));
    assert!(!names.contains(&"readme.txt".to_string()));
}

#[test]
fn postfix_matching_ignores_case() {
    let mut config = AppConfig::default();
    config.extraction.postfixes = vec!["_MAIN.BA2".to_string()];
    let tree = vec![FolderCandidates {
        dir_name: "Mod".to_string(),
        files: vec![candidate("Mod", "mod_main.ba2", 5)],
    }];
    let files = scan_candidates(&tree, &config);
    assert_eq!(files.len(), 1);
}

#[test]
fn scan_ignored_exact_path_drops_only_that_file() {
    let mut config = config_with_postfixes();
    config
        .extraction
        .ignored_files
        .push("/data/TestMod1/TestMod1_Main.ba2".to_string());

    let files = scan_candidates(&test_tree(), &config);

    assert_eq!(files.len(), 2);
    let names: Vec<String> = files.iter().map(|f| f.file_name.clone()).collect();
    assert!(!names.contains(&"TestMod1_Main.ba2".to_string()));
    assert!(names.contains(&"TestMod1_Textures.ba2".to_string()));
    assert!(names.contains(&"TestMod2_Main.ba2".to_string()));
}

#[test]
fn scan_regex_ignore_matches_test_anywhere() {
    let mut config = config_with_postfixes();
    config.extraction.ignored_files.push(".*test.*".to_string());

    let tree = vec![FolderCandidates {
        dir_name: "Mods".to_string(),
        files: vec![
            candidate("Mods", "a_test_main.ba2", 1),
            candidate("Mods", "my_testarchive_main.ba2", 1),
            candidate("Mods", "clean_main.ba2", 1),
            // The regex heuristic matches case-sensitively.
            candidate("Mods", "TEST_main.ba2", 1),
        ],
    }];

    let files = scan_candidates(&tree, &config);
    let names: Vec<String> = files.iter().map(|f| f.file_name.clone()).collect();
    assert!(!names.contains(&"a_test_main.ba2".to_string()));
    assert!(!names.contains(&"my_testarchive_main.ba2".to_string()));
    assert!(names.contains(&"clean_main.ba2".to_string()));
    assert!(names.contains(&"TEST_main.ba2".to_string()));
}

#[test]
fn bad_headers_mark_entries_instead_of_aborting() {
    let mut bad = candidate("Mod", "broken_main.ba2", 0);
    bad.header_bytes = Some(vec![1, 2, 3]);
    let mut unreadable = candidate("Mod", "locked_main.ba2", 0);
    unreadable.header_bytes = None;
    let tree = vec![FolderCandidates {
        dir_name: "Mod".to_string(),
        files: vec![bad, candidate("Mod", "fine_main.ba2", 12), unreadable],
    }];

    let files = scan_candidates(&tree, &AppConfig::default());
    assert_eq!(files.len(), 3);
    assert!(files[0].is_bad);
    assert_eq!(files[0].num_files, 0);
    assert!(!files[1].is_bad);
    assert_eq!(files[1].num_files, 12);
    assert!(files[2].is_bad);
}

#[test]
fn folder_scan_carries_the_folder_name() {
    let folder = FolderCandidates {
        dir_name: "SomeMod".to_string(),
        files: vec![candidate("SomeMod", "a_main.ba2", 3)],
    };
    let files = scan_mod_folder(&folder, &AppConfig::default());
    assert_eq!(files.len(), 1);
    assert_eq!(files[0].dir_name, "SomeMod");
    assert_eq!(files[0].full_path, "/data/SomeMod/a_main.ba2");
    assert_eq!(files[0].file_size, 1000);
}

#[test]
fn test_scan_mod_folder_empty() {
    let folder = FolderCandidates { dir_name: "Empty".to_string(), files: Vec::new() };
    let result = scan_mod_folder(&folder, &AppConfig::default());
    assert_eq!(result.len(), 0);
}

#[test]
fn empty_tree_scans_to_an_empty_inventory() {
    let files = scan_candidates(&Vec::new(), &AppConfig::default());
    assert!(files.is_empty());
}
