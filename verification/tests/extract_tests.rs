//! Tests for extraction outcomes, the batch driver and its control.

use unpackrr::ba2::extractor::{extraction_dir_of, BSArchConfig};
use unpackrr::config::AppConfig;
use unpackrr::models::FileEntry;
use unpackrr::error::{BA2Error, Error};
use unpackrr::operations::extract::{
    extract_all, extract_ba2_file, BatchState, ControlPort, ExtractionControl,
    ExtractionProgress, ExtractionResult, ExtractionTool, FileExtractionResult, NoControl,
    ToolOutput,
};

#[test]
fn test_extraction_result_creation() {
    let result = ExtractionResult::new();
    assert_eq!(result.successful, 0);
    assert_eq!(result.failed, 0);
    assert!(result.file_results.is_empty());
}

#[test]
fn test_extraction_result_add_success() {
    let mut result = ExtractionResult::new();
    result.add_result(FileExtractionResult {
        file_path: "/test/file.ba2".to_string(),
        success: true,
        error: None,
    });

    assert_eq!(result.successful, 1);
    assert_eq!(result.failed, 0);
    assert_eq!(result.file_results.len(), 1);
}

#[test]
fn test_extraction_result_add_failure() {
    let mut result = ExtractionResult::new();
    result.add_result(FileExtractionResult {
        file_path: "/test/file.ba2".to_string(),
        success: false,
        error: Some("Test error".to_string()),
    });

    assert_eq!(result.successful, 0);
    assert_eq!(result.failed, 1);
    assert_eq!(result.file_results.len(), 1);
}

#[test]
fn test_extraction_result_filtering() {
    let mut result = ExtractionResult::new();

    result.add_result(FileExtractionResult {
        file_path: "/test/success.ba2".to_string(),
        success: true,
        error: None,
    });

    result.add_result(FileExtractionResult {
        file_path: "/test/failure.ba2".to_string(),
        success: false,
        error: Some("Error".to_string()),
    });

    let successful = result.successful_files();
    let failed = result.failed_files();

    assert_eq!(successful.len(), 1);
    assert_eq!(failed.len(), 1);
    assert_eq!(
        std::path::Path::new(successful[0].as_str())
            .file_name()
            .unwrap()
            .to_str()
            .unwrap(),
        "success.ba2"
    );
    assert_eq!(
        std::path::Path::new(failed[0].as_str())
            .file_name()
            .unwrap()
            .to_str()
            .unwrap(),
        "failure.ba2"
    );
}

#[test]
fn test_bsarch_config_default() {
    let config = BSArchConfig::default();
    assert_eq!(config.bsarch_path, "BSArch.exe");
    assert!(config.extraction_path.is_none());
    assert!(!config.use_temp);
}

#[test]
fn test_bsarch_config_with_extraction_path() {
    let config = BSArchConfig::default().with_extraction_path("/custom/path".to_string());
    assert_eq!(config.extraction_path, Some("/custom/path".to_string()));
}

#[test]
fn test_bsarch_config_with_temp() {
    let config = BSArchConfig::default().with_temp(true);
    assert!(config.use_temp);
}

#[test]
fn test_bsarch_config_validation_fails() {
    let config = BSArchConfig::new("/nonexistent/BSArch.exe".to_string());
    assert!(config.validate().is_err());
}

/// A tool whose every run succeeds, without touching the system.
struct WorkingStub {
    runs: usize,
}

impl ExtractionTool for WorkingStub {
    fn file_exists(&mut self, _path: &str) -> bool {
        true
    }

    fn run_unpack(&mut self, _tool_path: &str, _archive_path: &str, _output_dir: &str) -> ToolOutput {
        self.runs += 1;
        ToolOutput {
            exit_ok: true,
            stdout: "Done.".to_string(),
            stderr: String::new(),
        }
    }
}

/// A stub on which the tool executable is missing.
struct MissingToolStub;

impl ExtractionTool for MissingToolStub {
    fn file_exists(&mut self, path: &str) -> bool {
        !path.ends_with("BSArch.exe")
    }

    fn run_unpack(&mut self, _tool_path: &str, _archive_path: &str, _output_dir: &str) -> ToolOutput {
        panic!("the tool must not run when its executable is missing");
    }
}

/// A tool that reports failure in its output despite a clean exit.
struct LyingStub;

impl ExtractionTool for LyingStub {
    fn file_exists(&mut self, _path: &str) -> bool {
        true
    }

    fn run_unpack(&mut self, _tool_path: &str, _archive_path: &str, _output_dir: &str) -> ToolOutput {
        ToolOutput {
            exit_ok: true,
            stdout: "Error: could not open archive".to_string(),
            stderr: String::new(),
        }
    }
}

/// A scripted control port handing out a fixed list of signals.
struct ScriptedControl {
    signals: Vec<Option<ExtractionControl>>,
    next: usize,
    waits: usize,
}

impl ControlPort for ScriptedControl {
    fn poll(&mut self) -> Option<ExtractionControl> {
        let signal = self.signals.get(self.next).cloned().flatten();
        self.next += 1;
        signal
    }

    fn wait_resume(&mut self) -> ExtractionControl {
        self.waits += 1;
        ExtractionControl::Resume
    }
}

fn batch_of(k: usize) -> Vec<FileEntry> {
    (0..k)
        .map(|i| {
            FileEntry::new(
                format!("file{}.ba2", i),
                1000,
                10,
                "Mod".to_string(),
                format!("/data/Mod/file{}.ba2", i),
                false,
            )
        })
        .collect()
}

#[test]
fn working_tool_extracts_every_file() {
    let files = batch_of(3);
    let config = AppConfig::default();
    let mut tool = WorkingStub { runs: 0 };
    let mut ctrl = NoControl;

    let (result, events, cancelled) = extract_all(&files, &config, &mut tool, &mut ctrl);

    assert!(!cancelled);
    assert_eq!(result.successful, 3);
    assert_eq!(result.failed, 0);
    assert_eq!(tool.runs, 3);
    let completions = events
        .iter()
        .filter(|e| matches!(e, ExtractionProgress::Completed { .. }))
        .count();
    assert_eq!(completions, 3);
    assert!(matches!(
        events.last().unwrap(),
        ExtractionProgress::Finished { successful: 3, failed: 0 }
    ));
}

#[test]
fn missing_tool_fails_every_file_and_still_finishes() {
    let files = batch_of(4);
    let config = AppConfig::default();
    let mut tool = MissingToolStub;
    let mut ctrl = NoControl;

    let (result, events, cancelled) = extract_all(&files, &config, &mut tool, &mut ctrl);

    assert!(!cancelled);
    assert_eq!(result.successful, 0);
    assert_eq!(result.failed, 4);
    for outcome in &result.file_results {
        assert!(!outcome.success);
        assert!(outcome.error.as_deref().unwrap().contains("not found"));
    }
    assert!(matches!(
        events.last().unwrap(),
        ExtractionProgress::Finished { successful: 0, failed: 4 }
    ));
}

#[test]
fn error_marker_in_output_fails_the_file() {
    let files = batch_of(1);
    let config = AppConfig::default();
    let mut tool = LyingStub;
    let mut ctrl = NoControl;

    let (result, _events, cancelled) = extract_all(&files, &config, &mut tool, &mut ctrl);
    assert!(!cancelled);
    assert_eq!(result.successful, 0);
    assert_eq!(result.failed, 1);
}

#[test]
fn pause_waits_and_then_continues() {
    let files = batch_of(2);
    let config = AppConfig::default();
    let mut tool = WorkingStub { runs: 0 };
    let mut ctrl = ScriptedControl {
        signals: vec![Some(ExtractionControl::Pause), None],
        next: 0,
        waits: 0,
    };

    let (result, _events, cancelled) = extract_all(&files, &config, &mut tool, &mut ctrl);
    assert_eq!(ctrl.waits, 1);
    assert!(!cancelled);
    assert_eq!(result.successful, 2);
}

#[test]
fn cancel_stops_dispatch_but_keeps_finished_outcomes() {
    let files = batch_of(3);
    let config = AppConfig::default();
    let mut tool = WorkingStub { runs: 0 };
    let mut ctrl = ScriptedControl {
        signals: vec![None, Some(ExtractionControl::Cancel)],
        next: 0,
        waits: 0,
    };

    let (result, events, cancelled) = extract_all(&files, &config, &mut tool, &mut ctrl);
    assert!(cancelled);
    assert_eq!(result.file_results.len(), 1);
    assert_eq!(result.successful, 1);
    assert_eq!(tool.runs, 1);
    assert!(matches!(
        events.last().unwrap(),
        ExtractionProgress::Finished { successful: 1, failed: 0 }
    ));
}

#[test]
fn batch_state_pauses_resumes_and_cancels() {
    let mut state = BatchState::new(3, 2);
    assert!(state.can_dispatch());
    state.start_next();

    state.apply_control(ExtractionControl::Pause);
    assert!(!state.can_dispatch());

    state.apply_control(ExtractionControl::Resume);
    assert!(state.can_dispatch());

    state.apply_control(ExtractionControl::Cancel);
    assert!(!state.can_dispatch());

    // The file already in flight still completes and the batch winds
    // down without dispatching more work.
    state.record_completion();
    assert!(state.is_finished());

    state.apply_control(ExtractionControl::Resume);
    assert!(!state.can_dispatch());
}

#[test]
fn batch_state_honors_the_cap() {
    let mut state = BatchState::new(8, 2);
    state.start_next();
    state.start_next();
    assert!(!state.can_dispatch());
    state.record_completion();
    assert!(state.can_dispatch());
}

/// A port on which nothing exists at all.
struct NothingThere;

impl ExtractionTool for NothingThere {
    fn file_exists(&mut self, _path: &str) -> bool {
        false
    }

    fn run_unpack(&mut self, _tool_path: &str, _archive_path: &str, _output_dir: &str) -> ToolOutput {
        panic!("nothing should run when the archive is missing");
    }
}

#[test]
fn test_extract_ba2_file_not_found() {
    let mut tool = NothingThere;
    let result = extract_ba2_file(
        "/nonexistent/file.ba2",
        None,
        "/fake/bsarch.exe",
        &mut tool,
    );

    assert!(result.is_err());
    // The missing archive is reported as a failed extraction.
    match result {
        Err(Error::BA2(BA2Error::ExtractionFailed { .. })) => {}
        _ => panic!("Expected BA2Error::ExtractionFailed error"),
    }
}

#[test]
fn every_cap_lets_the_whole_batch_complete() {
    for cap in 1..=8usize {
        let total = 5usize;
        let mut state = BatchState::new(total, cap);
        let mut in_flight = 0usize;
        let mut completed = 0usize;
        // Dispatch as the cap allows, completing one file whenever the
        // pool is full, until every file is done.
        while !state.is_finished() {
            if state.can_dispatch() {
                state.start_next();
                in_flight += 1;
                assert!(in_flight <= cap);
            } else {
                state.record_completion();
                in_flight -= 1;
                completed += 1;
            }
        }
        assert_eq!(completed, total);
    }
}

#[test]
fn extraction_dir_follows_the_configuration() {
    let base = BSArchConfig::new("/tools/BSArch.exe".to_string());

    let temp_cfg = base.clone().with_temp(true);
    assert_eq!(
        extraction_dir_of(&temp_cfg, Some("/data/Mod"), "archive", "/tmp", false),
        "/tmp/unpackrr_archive"
    );

    let abs_cfg = base.clone().with_extraction_path("/out".to_string());
    assert_eq!(
        extraction_dir_of(&abs_cfg, Some("/data/Mod"), "archive", "/tmp", true),
        "/out"
    );

    let rel_cfg = base.clone().with_extraction_path("unpacked".to_string());
    assert_eq!(
        extraction_dir_of(&rel_cfg, Some("/data/Mod"), "archive", "/tmp", false),
        "/data/Mod/unpacked"
    );

    assert_eq!(
        extraction_dir_of(&base, Some("/data/Mod"), "archive", "/tmp", false),
        "/data/Mod"
    );
    assert_eq!(extraction_dir_of(&base, None, "archive", "/tmp", false), ".");
}
