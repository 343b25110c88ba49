//! The extraction core: per-file outcomes, batch aggregation, the
//! cooperative control state machine, and a verified batch driver.
//!
//! Running the external tool and awaiting child processes is the
//! driver's job, reached through the [`ExtractionTool`] port; control
//! signals arrive through the [`ControlPort`]. Cancellation is
//! cooperative: it stops dispatch of new work and never interrupts work
//! already started.

use vstd::prelude::*;

use crate::ba2::extractor::tool_run_succeeded;
use crate::config::AppConfig;
use crate::error::{BA2Error, Error};
use crate::models::FileEntry;
use crate::operations::path::{get_parent, parent_of};
use crate::text::clone_opt_string;

verus! {

/// Progress update during extraction.
#[derive(Debug, Clone, PartialEq, Eq)]
pub enum ExtractionProgress {
    /// Extraction of a file started.
    Started {
        /// File being extracted.
        file_name: String,
        /// Current file number, one-based.
        current: usize,
        /// Total number of files to extract.
        total: usize,
    },
    /// Extraction of a file finished.
    Completed {
        /// File that was extracted.
        file_name: String,
        /// Whether extraction succeeded.
        success: bool,
        /// The reason it failed, if it did.
        error: Option<String>,
    },
    /// The whole batch finished.
    Finished {
        /// Number of successful extractions.
        successful: usize,
        /// Number of failed extractions.
        failed: usize,
    },
}

/// The outcome of extracting one file.
#[derive(Debug, Clone, PartialEq, Eq)]
pub struct FileExtractionResult {
    /// Path to the archive.
    pub file_path: String,
    /// Whether extraction succeeded.
    pub success: bool,
    /// The reason it failed, if it did.
    pub error: Option<String>,
}

/// The aggregated outcome of a batch.
#[derive(Debug, Clone, PartialEq, Eq)]
pub struct ExtractionResult {
    /// The per-file outcomes, in completion order.
    pub file_results: Vec<FileExtractionResult>,
    /// Number of successful extractions.
    pub successful: usize,
    /// Number of failed extractions.
    pub failed: usize,
}

impl ExtractionResult {
    /// Create a new empty result.
    pub fn new() -> (r: ExtractionResult)
        ensures
            r.file_results@.len() == 0,
            r.successful == 0,
            r.failed == 0,
    {
        ExtractionResult { file_results: Vec::new(), successful: 0, failed: 0 }
    }

    /// Record one outcome: it is appended, and the matching counter
    /// moves up by one.
    pub fn add_result(&mut self, result: FileExtractionResult)
        requires
            old(self).successful + old(self).failed < usize::MAX,
        ensures
            final(self).file_results@ == old(self).file_results@.push(result),
            result.success ==> (final(self).successful == old(self).successful + 1
                && final(self).failed == old(self).failed),
            !result.success ==> (final(self).failed == old(self).failed + 1
                && final(self).successful == old(self).successful),
    {
        if result.success {
            self.successful = self.successful + 1;
        } else {
            self.failed = self.failed + 1;
        }
        self.file_results.push(result);
    }

    /// The paths of the outcomes that succeeded, in order.
    pub fn successful_files(&self) -> (r: Vec<String>)
        ensures
            r.deep_view() == success_paths(self.file_results@),
    {
        let mut out: Vec<String> = Vec::new();
        let mut i: usize = 0;
        proof {
            assert(self.file_results@.take(0) =~= Seq::<FileExtractionResult>::empty());
            assert(out.deep_view() =~~= success_paths(self.file_results@.take(0)));
        }
        while i < self.file_results.len()
            invariant
                i <= self.file_results@.len(),
                out.deep_view() == success_paths(self.file_results@.take(i as int)),
            decreases self.file_results@.len() - i,
        {
            if self.file_results[i].success {
                out.push(self.file_results[i].file_path.clone());
            }
            proof {
                assert(self.file_results@.take(i + 1).drop_last() =~= self.file_results@.take(
                    i as int,
                ));
                assert(self.file_results@.take(i + 1).last() == self.file_results@[i as int]);
                assert(out.deep_view() =~~= success_paths(self.file_results@.take(i + 1)));
            }
            i = i + 1;
        }
        proof {
            assert(self.file_results@.take(self.file_results@.len() as int)
                =~= self.file_results@);
        }
        out
    }

    /// The paths of the outcomes that failed, in order.
    pub fn failed_files(&self) -> (r: Vec<String>)
        ensures
            r.deep_view() == failure_paths(self.file_results@),
    {
        let mut out: Vec<String> = Vec::new();
        let mut i: usize = 0;
        proof {
            assert(self.file_results@.take(0) =~= Seq::<FileExtractionResult>::empty());
            assert(out.deep_view() =~~= failure_paths(self.file_results@.take(0)));
        }
        while i < self.file_results.len()
            invariant
                i <= self.file_results@.len(),
                out.deep_view() == failure_paths(self.file_results@.take(i as int)),
            decreases self.file_results@.len() - i,
        {
            if !self.file_results[i].success {
                out.push(self.file_results[i].file_path.clone());
            }
            proof {
                assert(self.file_results@.take(i + 1).drop_last() =~= self.file_results@.take(
                    i as int,
                ));
                assert(self.file_results@.take(i + 1).last() == self.file_results@[i as int]);
                assert(out.deep_view() =~~= failure_paths(self.file_results@.take(i + 1)));
            }
            i = i + 1;
        }
        proof {
            assert(self.file_results@.take(self.file_results@.len() as int)
                =~= self.file_results@);
        }
        out
    }
}

impl Default for ExtractionResult {
    /// An empty result.
    fn default() -> (r: ExtractionResult)
        ensures
            r.file_results@.len() == 0,
            r.successful == 0,
            r.failed == 0,
    {
        ExtractionResult::new()
    }
}

/// The paths of the successful outcomes.
pub open spec fn success_paths(s: Seq<FileExtractionResult>) -> Seq<Seq<char>>
    decreases s.len(),
{
    if s.len() == 0 {
        Seq::empty()
    } else {
        success_paths(s.drop_last()) + (if s.last().success {
            seq![s.last().file_path@]
        } else {
            Seq::empty()
        })
    }
}

/// The paths of the failed outcomes.
pub open spec fn failure_paths(s: Seq<FileExtractionResult>) -> Seq<Seq<char>>
    decreases s.len(),
{
    if s.len() == 0 {
        Seq::empty()
    } else {
        failure_paths(s.drop_last()) + (if !s.last().success {
            seq![s.last().file_path@]
        } else {
            Seq::empty()
        })
    }
}

/// A control signal for a running batch.
#[derive(Debug, Clone, Copy, PartialEq, Eq, Structural)]
pub enum ExtractionControl {
    /// Stop dispatching new work until resumed.
    Pause,
    /// Resume dispatching work.
    Resume,
    /// Stop dispatching work for good; running work finishes naturally.
    Cancel,
}

/// The run flag of a batch: running, paused, or winding down.
#[derive(Debug, Clone, Copy, PartialEq, Eq, Structural)]
pub enum RunState {
    /// New work is dispatched.
    Running,
    /// Dispatch is held until a resume arrives.
    Paused,
    /// No further work is dispatched; in-flight work finishes.
    Cancelling,
}

/// The run flag after a control signal: pause and resume toggle between
/// the two live states, cancelling is final.
pub open spec fn next_run(run: RunState, signal: ExtractionControl) -> RunState {
    match signal {
        ExtractionControl::Pause => if run is Cancelling {
            RunState::Cancelling
        } else {
            RunState::Paused
        },
        ExtractionControl::Resume => if run is Cancelling {
            RunState::Cancelling
        } else {
            RunState::Running
        },
        ExtractionControl::Cancel => RunState::Cancelling,
    }
}

/// The scheduling state of one batch.
#[derive(Debug, Clone, PartialEq, Eq)]
pub struct BatchState {
    /// Number of files in the batch.
    pub total: usize,
    /// Index of the next file to dispatch.
    pub next_index: usize,
    /// Number of dispatched files not yet completed.
    pub in_flight: usize,
    /// Concurrency cap: the most files in flight at once.
    pub cap: usize,
    /// The run flag.
    pub run: RunState,
}

/// A batch state is well-formed: dispatch never passes the total, the
/// cap is positive, and no more work is in flight than was dispatched.
pub open spec fn batch_wf(s: BatchState) -> bool {
    s.next_index <= s.total && 1 <= s.cap && s.in_flight <= s.next_index
}

/// New work may be dispatched: the batch is running, files remain, and
/// the cap leaves room.
pub open spec fn can_dispatch_spec(s: BatchState) -> bool {
    s.run is Running && s.next_index < s.total && s.in_flight < s.cap
}

impl BatchState {
    /// Start a batch of `total` files under a concurrency cap.
    pub fn new(total: usize, cap: usize) -> (r: BatchState)
        requires
            1 <= cap,
        ensures
            r == (BatchState {
                total,
                next_index: 0,
                in_flight: 0,
                cap,
                run: RunState::Running,
            }),
            batch_wf(r),
    {
        BatchState { total, next_index: 0, in_flight: 0, cap, run: RunState::Running }
    }

    /// Whether new work may be dispatched now.
    pub fn can_dispatch(&self) -> (r: bool)
        ensures
            r == can_dispatch_spec(*self),
    {
        match self.run {
            RunState::Running => self.next_index < self.total && self.in_flight < self.cap,
            _ => false,
        }
    }

    /// Apply one control signal to the run flag; the schedule itself is
    /// untouched.
    pub fn apply_control(&mut self, signal: ExtractionControl)
        ensures
            final(self).run == next_run(old(self).run, signal),
            final(self).total == old(self).total,
            final(self).next_index == old(self).next_index,
            final(self).in_flight == old(self).in_flight,
            final(self).cap == old(self).cap,
    {
        match signal {
            ExtractionControl::Pause => {
                match self.run {
                    RunState::Cancelling => (),
                    _ => {
                        self.run = RunState::Paused;
                    },
                }
            },
            ExtractionControl::Resume => {
                match self.run {
                    RunState::Cancelling => (),
                    _ => {
                        self.run = RunState::Running;
                    },
                }
            },
            ExtractionControl::Cancel => {
                self.run = RunState::Cancelling;
            },
        }
    }

    /// Dispatch the next file: it moves into flight.
    pub fn start_next(&mut self)
        requires
            can_dispatch_spec(*old(self)),
            batch_wf(*old(self)),
        ensures
            final(self).next_index == old(self).next_index + 1,
            final(self).in_flight == old(self).in_flight + 1,
            final(self).total == old(self).total,
            final(self).cap == old(self).cap,
            final(self).run == old(self).run,
            batch_wf(*final(self)),
    {
        self.next_index = self.next_index + 1;
        self.in_flight = self.in_flight + 1;
    }

    /// Record that one dispatched file completed: it leaves flight.
    pub fn record_completion(&mut self)
        requires
            old(self).in_flight > 0,
        ensures
            final(self).in_flight == old(self).in_flight - 1,
            final(self).next_index == old(self).next_index,
            final(self).total == old(self).total,
            final(self).cap == old(self).cap,
            final(self).run == old(self).run,
    {
        self.in_flight = self.in_flight - 1;
    }

    /// The batch is finished: nothing is in flight and either every
    /// file was dispatched or the batch is cancelling.
    pub fn is_finished(&self) -> (r: bool)
        ensures
            r == ((self.run is Cancelling || self.next_index == self.total) && self.in_flight
                == 0),
    {
        (match self.run {
            RunState::Cancelling => true,
            _ => self.next_index == self.total,
        }) && self.in_flight == 0
    }
}

/// A pause signal halts dispatch: whatever the schedule, no new work
/// may be dispatched after it, until a resume arrives.
pub proof fn lemma_pause_halts_dispatch(s: BatchState)
    ensures
        !can_dispatch_spec(
            BatchState { run: next_run(s.run, ExtractionControl::Pause), ..s },
        ),
{
}

/// A resume signal restores dispatch exactly where a pause had held it
/// back: afterwards dispatch is allowed again whenever files remain and
/// the cap leaves room, unless the batch was already cancelling.
pub proof fn lemma_resume_restores_dispatch(s: BatchState)
    requires
        !(s.run is Cancelling),
    ensures
        can_dispatch_spec(BatchState { run: next_run(s.run, ExtractionControl::Resume), ..s })
            == (s.next_index < s.total && s.in_flight < s.cap),
{
}

/// A cancel signal halts dispatch for good: no new work may be
/// dispatched, and no later signal leaves the cancelling state; work
/// already in flight may still complete and lower the flight count.
pub proof fn lemma_cancel_is_final(s: BatchState, later: ExtractionControl)
    ensures
        !can_dispatch_spec(
            BatchState { run: next_run(s.run, ExtractionControl::Cancel), ..s },
        ),
        next_run(next_run(s.run, ExtractionControl::Cancel), later) == RunState::Cancelling,
{
}

/// The concurrency cap for a machine with `n` usable cores: clamped to
/// the range from one to eight.
pub fn concurrency_cap(n: usize) -> (r: usize)
    ensures
        r == (if n < 1 {
            1usize
        } else if n > 8 {
            8usize
        } else {
            n
        }),
{
    if n < 1 {
        1
    } else if n > 8 {
        8
    } else {
        n
    }
}

/// What one run of the external tool produced.
#[derive(Debug, Clone, PartialEq, Eq)]
pub struct ToolOutput {
    /// Whether the process exited with a success status.
    pub exit_ok: bool,
    /// The captured standard output.
    pub stdout: String,
    /// The captured standard error.
    pub stderr: String,
}

/// The port through which the batch reaches the file system and the
/// external unpacking tool. The driver implements it with real
/// subprocess runs; nothing is assumed of the answers.
pub trait ExtractionTool {
    /// Whether the given path exists on disk.
    fn file_exists(&mut self, path: &str) -> bool;

    /// Run the named tool executable as `unpack <archive> <output>` and
    /// capture its exit status and output.
    fn run_unpack(&mut self, tool_path: &str, archive_path: &str, output_dir: &str) -> ToolOutput;
}

/// The port through which control signals reach the batch.
pub trait ControlPort {
    /// The next pending signal, if one arrived.
    fn poll(&mut self) -> Option<ExtractionControl>;

    /// Block until the pause ends: the port hands back only a resume or
    /// a cancel.
    fn wait_resume(&mut self) -> (s: ExtractionControl)
        ensures
            s != ExtractionControl::Pause,
    ;
}

/// A control port that never signals: the batch just runs.
pub struct NoControl;

impl ControlPort for NoControl {
    fn poll(&mut self) -> Option<ExtractionControl> {
        None
    }

    fn wait_resume(&mut self) -> (s: ExtractionControl)
        ensures
            s != ExtractionControl::Pause,
    {
        ExtractionControl::Resume
    }
}

/// Extract a single archive through the tool port.
///
/// The archive and the tool executable must both exist, or the file
/// fails on its own with a not-found-style error; otherwise the tool
/// runs, and succeeds only with a clean exit and no error marker in its
/// output. Every failure names the archive, except a missing tool,
/// which names the tool; the reason is one of three texts: the missing
/// archive, the archive path without a parent to extract into, or the
/// tool's own report.
pub fn extract_ba2_file<T: ExtractionTool>(
    ba2_path: &str,
    output_dir: Option<&str>,
    bsarch_path: &str,
    tool: &mut T,
) -> (r: Result<(), Error>)
    ensures
        r matches Err(e) ==> {
            ||| (e matches Error::BA2(BA2Error::ExtractionFailed { path, reason }) && path@
                == ba2_path@ && (reason@ == "File not found"@ || (output_dir is None && parent_of(
                ba2_path@,
            ) is None && reason@ == "BA2 file path has no parent directory"@) || (reason@.len()
                >= "BSArch.exe reported error: "@.len() && reason@.subrange(
                0,
                "BSArch.exe reported error: "@.len() as int,
            ) == "BSArch.exe reported error: "@)))
            ||| (e matches Error::BA2(BA2Error::BSArchNotFound { path }) && path@
                == bsarch_path@)
        },
{
    if !tool.file_exists(ba2_path) {
        return Err(
            Error::BA2(
                BA2Error::ExtractionFailed {
                    path: ba2_path.to_owned(),
                    reason: String::from_str("File not found"),
                },
            ),
        );
    }
    if !tool.file_exists(bsarch_path) {
        return Err(Error::BA2(BA2Error::BSArchNotFound { path: bsarch_path.to_owned() }));
    }
    let out_dir: String = match output_dir {
        Some(dir) => dir.to_owned(),
        None => {
            match get_parent(ba2_path) {
                Some(p) => p,
                None => {
                    return Err(
                        Error::BA2(
                            BA2Error::ExtractionFailed {
                                path: ba2_path.to_owned(),
                                reason: String::from_str(
                                    "BA2 file path has no parent directory",
                                ),
                            },
                        ),
                    );
                },
            }
        },
    };
    let output = tool.run_unpack(bsarch_path, ba2_path, out_dir.as_str());
    if tool_run_succeeded(output.exit_ok, output.stdout.as_str(), output.stderr.as_str()) {
        Ok(())
    } else {
        let reason = String::from_str("BSArch.exe reported error: ").concat(
            output.stderr.as_str(),
        );
        proof {
            assert(reason@.subrange(0, "BSArch.exe reported error: "@.len() as int)
                =~= "BSArch.exe reported error: "@);
        }
        Err(Error::BA2(BA2Error::ExtractionFailed { path: ba2_path.to_owned(), reason }))
    }
}

/// The number of successful outcomes in a sequence.
pub open spec fn count_successes(s: Seq<FileExtractionResult>) -> int
    decreases s.len(),
{
    if s.len() == 0 {
        0
    } else {
        count_successes(s.drop_last()) + (if s.last().success {
            1int
        } else {
            0int
        })
    }
}

/// The number of failed outcomes in a sequence.
pub open spec fn count_failures(s: Seq<FileExtractionResult>) -> int
    decreases s.len(),
{
    if s.len() == 0 {
        0
    } else {
        count_failures(s.drop_last()) + (if s.last().success {
            0int
        } else {
            1int
        })
    }
}

/// A batch in which every outcome succeeded reports as many successes
/// as outcomes, and no failures.
pub proof fn lemma_all_success_counts(s: Seq<FileExtractionResult>)
    requires
        forall|i: int| 0 <= i < s.len() ==> (#[trigger] s[i]).success,
    ensures
        count_successes(s) == s.len(),
        count_failures(s) == 0,
    decreases s.len(),
{
    if s.len() > 0 {
        assert(s.last() == s[s.len() - 1]);
        assert forall|i: int| 0 <= i < s.drop_last().len() implies (
        #[trigger] s.drop_last()[i]).success by {
            assert(s.drop_last()[i] == s[i]);
        }
        lemma_all_success_counts(s.drop_last());
    }
}

/// A batch in which every outcome failed reports as many failures as
/// outcomes, and no successes.
pub proof fn lemma_all_failed_counts(s: Seq<FileExtractionResult>)
    requires
        forall|i: int| 0 <= i < s.len() ==> !(#[trigger] s[i]).success,
    ensures
        count_successes(s) == 0,
        count_failures(s) == s.len(),
    decreases s.len(),
{
    if s.len() > 0 {
        assert(s.last() == s[s.len() - 1]);
        assert forall|i: int| 0 <= i < s.drop_last().len() implies !(
        #[trigger] s.drop_last()[i]).success by {
            assert(s.drop_last()[i] == s[i]);
        }
        lemma_all_failed_counts(s.drop_last());
    }
}

/// The progress events a batch emits for its recorded outcomes: one
/// started and one completed event per file, in order.
pub open spec fn batch_events(
    files: Seq<FileEntry>,
    results: Seq<FileExtractionResult>,
    total: usize,
) -> Seq<ExtractionProgress>
    decreases results.len(),
{
    if results.len() == 0 {
        Seq::empty()
    } else {
        let k = results.len() - 1;
        batch_events(files, results.drop_last(), total) + seq![
            ExtractionProgress::Started {
                file_name: files[k].file_name,
                current: (k + 1) as usize,
                total,
            },
            ExtractionProgress::Completed {
                file_name: files[k].file_name,
                success: results[k].success,
                error: results[k].error,
            },
        ]
    }
}

/// Extract a batch of archives through the tool port, one at a time,
/// honoring pause, resume and cancel.
///
/// Files are processed in order; each produces a started event, then a
/// completed event, and its outcome is recorded. A cancel stops further
/// dispatch, so the outcomes are a prefix of the batch; the final event
/// reports the aggregate counts. The last component tells whether the
/// batch was cancelled: a batch that was not records one outcome per
/// input file.
pub fn extract_all<T: ExtractionTool, C: ControlPort>(
    files: &Vec<FileEntry>,
    config: &AppConfig,
    tool: &mut T,
    ctrl: &mut C,
) -> (r: (ExtractionResult, Vec<ExtractionProgress>, bool))
    ensures
        r.0.successful == count_successes(r.0.file_results@),
        r.0.failed == count_failures(r.0.file_results@),
        r.0.successful + r.0.failed == r.0.file_results@.len(),
        r.0.file_results@.len() <= files@.len(),
        !r.2 ==> r.0.file_results@.len() == files@.len(),
        forall|i: int|
            0 <= i < r.0.file_results@.len() ==> (#[trigger] r.0.file_results@[i]).file_path
                == files@[i].full_path,
        r.1@ == batch_events(files@, r.0.file_results@, files@.len() as usize).push(
            ExtractionProgress::Finished { successful: r.0.successful, failed: r.0.failed },
        ),
{
    let total = files.len();
    let bsarch_path = if config.advanced.ext_ba2_exe.as_str().is_empty() {
        String::from_str("BSArch.exe")
    } else {
        config.advanced.ext_ba2_exe.clone()
    };
    let mut result = ExtractionResult::new();
    let mut events: Vec<ExtractionProgress> = Vec::new();
    let mut i: usize = 0;
    let mut cancelled = false;
    proof {
        assert(events@ =~= batch_events(files@, result.file_results@, total));
    }
    while i < total && !cancelled
        invariant
            total == files@.len(),
            i <= total,
            result.successful == count_successes(result.file_results@),
            result.failed == count_failures(result.file_results@),
            result.successful + result.failed == result.file_results@.len(),
            result.file_results@.len() == i,
            forall|k: int|
                0 <= k < i ==> (#[trigger] result.file_results@[k]).file_path
                    == files@[k].full_path,
            events@ == batch_events(files@, result.file_results@, total),
        ensures
            cancelled || i == total,
            result.file_results@.len() == i,
            result.successful == count_successes(result.file_results@),
            result.failed == count_failures(result.file_results@),
            result.successful + result.failed == result.file_results@.len(),
            forall|k: int|
                0 <= k < i ==> (#[trigger] result.file_results@[k]).file_path
                    == files@[k].full_path,
            events@ == batch_events(files@, result.file_results@, total),
            total == files@.len(),
            i <= total,
        decreases total - i,
    {
        match ctrl.poll() {
            Some(ExtractionControl::Cancel) => {
                cancelled = true;
            },
            Some(ExtractionControl::Pause) => {
                match ctrl.wait_resume() {
                    ExtractionControl::Cancel => {
                        cancelled = true;
                    },
                    _ => (),
                }
            },
            _ => (),
        }
        if cancelled {
            break ;
        }
        let entry = &files[i];
        let ghost pre_results = result.file_results@;
        events.push(
            ExtractionProgress::Started {
                file_name: entry.file_name.clone(),
                current: i + 1,
                total,
            },
        );
        let outcome = match extract_ba2_file(
            entry.full_path.as_str(),
            None,
            bsarch_path.as_str(),
            tool,
        ) {
            Ok(()) => FileExtractionResult {
                file_path: entry.full_path.clone(),
                success: true,
                error: None,
            },
            Err(e) => FileExtractionResult {
                file_path: entry.full_path.clone(),
                success: false,
                error: Some(e.message()),
            },
        };
        events.push(
            ExtractionProgress::Completed {
                file_name: entry.file_name.clone(),
                success: outcome.success,
                error: clone_opt_string(&outcome.error),
            },
        );
        result.add_result(outcome);
        proof {
            assert(result.file_results@.drop_last() =~= pre_results);
            assert(events@ =~= batch_events(files@, result.file_results@, total));
        }
        i = i + 1;
    }
    events.push(
        ExtractionProgress::Finished { successful: result.successful, failed: result.failed },
    );
    (result, events, cancelled)
}

} // verus!
