//! Tests for archive header parsing and validation.

use unpackrr::ba2::extractor::{parse_list_output, tool_run_succeeded};
use unpackrr::ba2::BA2Header;
use unpackrr::ba2::{is_valid_ba2, num_files_in_ba2};
use unpackrr::error::{BA2Error, Error};

fn valid_header_bytes(file_count: u32) -> Vec<u8> {
    let mut data = Vec::new();
    data.extend_from_slice(b"BTDX");
    data.extend_from_slice(&1u32.to_le_bytes());
    data.extend_from_slice(b"GNRL");
    data.extend_from_slice(&file_count.to_le_bytes());
    data.extend_from_slice(&1024u64.to_le_bytes());
    data
}

#[test]
fn test_ba2_magic() {
    assert_eq!(BA2Header::MAGIC, *b"BTDX");
}

#[test]
fn test_header_size() {
    assert_eq!(BA2Header::HEADER_SIZE, 24);
}

#[test]
fn test_parse_valid_header() {
    let mut data = Vec::new();
    data.extend_from_slice(b"BTDX"); // Magic
    data.extend_from_slice(&1u32.to_le_bytes()); // Version
    data.extend_from_slice(b"GNRL"); // Archive type
    data.extend_from_slice(&100u32.to_le_bytes()); // File count
    data.extend_from_slice(&1024u64.to_le_bytes()); // Names offset

    let header = BA2Header::parse_from_reader(&data, "test.ba2").unwrap();

    assert_eq!(header.magic, *b"BTDX");
    assert_eq!(header.version, 1);
    assert_eq!(header.archive_type, "GNRL");
    assert_eq!(header.file_count, 100);
    assert_eq!(header.names_offset, 1024);
}

#[test]
fn test_parse_invalid_magic() {
    let mut data = Vec::new();
    data.extend_from_slice(b"XXXX"); // Invalid magic
    data.extend_from_slice(&1u32.to_le_bytes());
    data.extend_from_slice(b"GNRL");
    data.extend_from_slice(&100u32.to_le_bytes());
    data.extend_from_slice(&1024u64.to_le_bytes());

    let result = BA2Header::parse_from_reader(&data, "test.ba2");

    assert!(result.is_err());
    assert!(matches!(
        result.unwrap_err(),
        Error::BA2(BA2Error::InvalidMagic { .. })
    ));
}

#[test]
fn test_parse_truncated_header() {
    let data = vec![0u8; 10];
    let result = BA2Header::parse_from_reader(&data, "test.ba2");

    assert!(result.is_err());
    assert!(matches!(
        result.unwrap_err(),
        Error::BA2(BA2Error::Corrupted { .. })
    ));
}

#[test]
fn test_is_general() {
    let header = BA2Header {
        magic: *b"BTDX",
        version: 1,
        archive_type: "GNRL".to_string(),
        file_count: 100,
        names_offset: 1024,
    };
    assert!(header.is_general());
    assert!(!header.is_texture());
}

#[test]
fn test_is_texture() {
    let header = BA2Header {
        magic: *b"BTDX",
        version: 1,
        archive_type: "DX10".to_string(),
        file_count: 100,
        names_offset: 1024,
    };
    assert!(header.is_texture());
    assert!(!header.is_general());
}

#[test]
fn unknown_tag_parses_without_type() {
    let mut data = Vec::new();
    data.extend_from_slice(b"BTDX");
    data.extend_from_slice(&2u32.to_le_bytes());
    data.extend_from_slice(b"ABCD"); // Unknown archive type
    data.extend_from_slice(&7u32.to_le_bytes());
    data.extend_from_slice(&0u64.to_le_bytes());

    let header = BA2Header::parse_from_reader(&data, "odd.ba2").unwrap();
    assert_eq!(header.archive_type, "ABCD");
    assert!(!header.is_general());
    assert!(!header.is_texture());
}

#[test]
fn tag_trailing_nuls_are_trimmed() {
    let mut data = Vec::new();
    data.extend_from_slice(b"BTDX");
    data.extend_from_slice(&1u32.to_le_bytes());
    data.extend_from_slice(b"AB\0\0");
    data.extend_from_slice(&3u32.to_le_bytes());
    data.extend_from_slice(&0u64.to_le_bytes());

    let header = BA2Header::parse_from_reader(&data, "padded.ba2").unwrap();
    assert_eq!(header.archive_type, "AB");
}

#[test]
fn bad_magic_fails_whatever_the_rest_holds() {
    for filler in [0u8, 0x55, 0xFF] {
        let mut data = vec![filler; 24];
        data[0] = b'Q';
        let result = BA2Header::parse_from_reader(&data, "any.ba2");
        assert!(matches!(
            result.unwrap_err(),
            Error::BA2(BA2Error::InvalidMagic { .. })
        ));
    }
}

#[test]
fn every_short_buffer_is_corrupted() {
    for len in 0..24 {
        let data = vec![0x42u8; len];
        let result = BA2Header::parse_from_reader(&data, "short.ba2");
        assert!(matches!(
            result.unwrap_err(),
            Error::BA2(BA2Error::Corrupted { .. })
        ));
    }
}

#[test]
fn num_files_reads_the_count_field() {
    let data = valid_header_bytes(4660);
    assert_eq!(num_files_in_ba2(&data, "count.ba2").unwrap(), 4660);
}

#[test]
fn validity_check_never_propagates_errors() {
    assert!(is_valid_ba2(&valid_header_bytes(1)));
    assert!(!is_valid_ba2(&[0u8; 10]));
    let mut bad = valid_header_bytes(1);
    bad[0] = b'Z';
    assert!(!is_valid_ba2(&bad));
}

#[test]
fn validate_rejects_only_the_magic() {
    let header = BA2Header {
        magic: *b"BTDX",
        version: 9,
        archive_type: "WXYZ".to_string(),
        file_count: 0,
        names_offset: 0,
    };
    assert!(header.validate("f.ba2").is_ok());

    let bad = BA2Header { magic: *b"XTDX", ..header };
    assert!(matches!(
        bad.validate("f.ba2").unwrap_err(),
        Error::BA2(BA2Error::InvalidMagic { .. })
    ));
}

#[test]
fn list_output_keeps_only_file_lines() {
    let stdout = "Archive: test.ba2\r\nFiles: 3\r\n  meshes/a.nif \r\n\r\ntextures/b.dds\r\n";
    let files = parse_list_output(stdout);
    assert_eq!(files, vec!["meshes/a.nif".to_string(), "textures/b.dds".to_string()]);
}

#[test]
fn tool_output_error_marker_is_case_insensitive() {
    assert!(tool_run_succeeded(true, "all fine", ""));
    assert!(!tool_run_succeeded(false, "", ""));
    assert!(!tool_run_succeeded(true, "Error: broken", ""));
    assert!(!tool_run_succeeded(true, "", "ERROR: broken"));
    assert!(!tool_run_succeeded(true, "eRrOr: broken", ""));
}
