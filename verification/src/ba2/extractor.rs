//! Decision logic around the external unpacking tool.
//!
//! The tool is an opaque subprocess; running it is the driver's job. This
//! module holds its configuration and the verified reading of its output:
//! the tool sometimes exits with code zero while reporting failure in its
//! output, so success requires a clean exit *and* an output free of the
//! error marker.

use vstd::prelude::*;

use crate::error::{BA2Error, Error};
use crate::operations::path::{join_path, join_spec, path_exists};
use crate::text::{
    contains_seq, lower_of, lowercase, split_lines, split_lines_vec, str_contains,
    str_starts_with, str_trim, trim_spec,
};

verus! {

/// Configuration for runs of the external unpacking tool.
#[derive(Debug, Clone, PartialEq, Eq)]
pub struct BSArchConfig {
    /// Path to the tool executable.
    pub bsarch_path: String,
    /// Custom extraction path; `None` extracts next to each archive.
    pub extraction_path: Option<String>,
    /// Whether to extract into a temporary directory.
    pub use_temp: bool,
}

impl BSArchConfig {
    /// Create a new configuration for the given tool path.
    pub fn new(bsarch_path: String) -> (r: BSArchConfig)
        ensures
            r.bsarch_path == bsarch_path,
            r.extraction_path is None,
            !r.use_temp,
    {
        BSArchConfig { bsarch_path, extraction_path: None, use_temp: false }
    }

    /// Set a custom extraction path.
    pub fn with_extraction_path(self, path: String) -> (r: BSArchConfig)
        ensures
            r.bsarch_path == self.bsarch_path,
            r.extraction_path == Some(path),
            r.use_temp == self.use_temp,
    {
        BSArchConfig { extraction_path: Some(path), ..self }
    }

    /// Set whether to extract into a temporary directory.
    pub fn with_temp(self, use_temp: bool) -> (r: BSArchConfig)
        ensures
            r.bsarch_path == self.bsarch_path,
            r.extraction_path == self.extraction_path,
            r.use_temp == use_temp,
    {
        BSArchConfig { use_temp, ..self }
    }

    /// Check that the tool executable is present on disk. The only
    /// possible failure is a not-found error naming the configured path.
    pub fn validate(&self) -> (r: Result<(), Error>)
        ensures
            r matches Err(e) ==> (e matches Error::BA2(BA2Error::BSArchNotFound { path }) && path@
                == self.bsarch_path@),
    {
        if !path_exists(self.bsarch_path.as_str()) {
            return Err(
                Error::BA2(BA2Error::BSArchNotFound { path: self.bsarch_path.clone() }),
            );
        }
        Ok(())
    }
}

impl Default for BSArchConfig {
    /// The default configuration: the tool next to the working directory,
    /// no custom path, no temporary directory.
    fn default() -> (r: BSArchConfig)
        ensures
            r.bsarch_path@ == "BSArch.exe"@,
            r.extraction_path is None,
            !r.use_temp,
    {
        BSArchConfig::new(String::from_str("BSArch.exe"))
    }
}

/// The archive's parent directory, or the working directory when it
/// has none.
pub open spec fn parent_or_here(parent: Option<&str>) -> Seq<char> {
    match parent {
        Some(p) => p@,
        None => "."@,
    }
}

/// The directory one archive extracts into, per the configuration:
/// a temporary directory named for the archive when `use_temp` is set;
/// else a custom path, taken as-is when absolute and joined onto the
/// archive's parent when relative; else the parent itself. `parent` is
/// the archive's parent directory, `stem` its file name without the
/// extension, `temp_root` the system's temporary directory, and
/// `custom_is_absolute` whether the custom path is absolute.
pub fn extraction_dir_of(
    config: &BSArchConfig,
    parent: Option<&str>,
    stem: &str,
    temp_root: &str,
    custom_is_absolute: bool,
) -> (r: String)
    ensures
        config.use_temp ==> r@ == join_spec(temp_root@, "unpackrr_"@ + stem@),
        !config.use_temp ==> (match config.extraction_path {
            Some(c) => if custom_is_absolute {
                r@ == c@
            } else {
                r@ == join_spec(parent_or_here(parent), c@)
            },
            None => r@ == parent_or_here(parent),
        }),
{
    if config.use_temp {
        let mut name = String::from_str("unpackrr_");
        name.append(stem);
        join_path(temp_root, name.as_str())
    } else {
        match &config.extraction_path {
            Some(custom) => {
                if custom_is_absolute {
                    custom.clone()
                } else {
                    match parent {
                        Some(p) => join_path(p, custom.as_str()),
                        None => join_path(".", custom.as_str()),
                    }
                }
            },
            None => {
                match parent {
                    Some(p) => p.to_owned(),
                    None => String::from_str("."),
                }
            },
        }
    }
}

/// A captured output stream contains the error marker `error:`, compared
/// case-insensitively.
pub open spec fn has_error_marker(s: Seq<char>) -> bool {
    contains_seq(lower_of(s), "error:"@)
}

/// Scan one captured output stream of the tool for the error marker.
pub fn stream_has_error_marker(s: &str) -> (r: bool)
    ensures
        r == has_error_marker(s@),
{
    let lower = lowercase(s);
    str_contains(lower.as_str(), "error:")
}

/// Decide whether a finished tool run succeeded: the exit status must be
/// success and neither captured stream may carry the error marker.
pub fn tool_run_succeeded(exit_ok: bool, stdout: &str, stderr: &str) -> (r: bool)
    ensures
        r == (exit_ok && !has_error_marker(stdout@) && !has_error_marker(stderr@)),
{
    exit_ok && !stream_has_error_marker(stdout) && !stream_has_error_marker(stderr)
}

/// One line of list output is kept when it is non-empty after trimming
/// and is neither the archive banner nor the file-count banner.
pub open spec fn list_line_kept(line: Seq<char>) -> bool {
    trim_spec(line).len() > 0 && !(line.len() >= 8 && line.subrange(0, 8) == "Archive:"@) && !(
    line.len() >= 6 && line.subrange(0, 6) == "Files:"@)
}

/// The file names carried by the given list-output lines: each kept
/// line, trimmed.
pub open spec fn list_files_of(lines: Seq<Seq<char>>) -> Seq<Seq<char>>
    decreases lines.len(),
{
    if lines.len() == 0 {
        Seq::empty()
    } else {
        (if list_line_kept(lines[0]) {
            seq![trim_spec(lines[0])]
        } else {
            Seq::empty()
        }) + list_files_of(lines.drop_first())
    }
}

/// Appending one line extends the kept files by that line's contribution.
proof fn lemma_list_files_push(lines: Seq<Seq<char>>, line: Seq<char>)
    ensures
        list_files_of(lines.push(line)) == list_files_of(lines) + (if list_line_kept(line) {
            seq![trim_spec(line)]
        } else {
            Seq::<Seq<char>>::empty()
        }),
    decreases lines.len(),
{
    if lines.len() == 0 {
        assert(lines.push(line).drop_first() =~~= lines);
        assert(list_files_of(lines.push(line)) =~~= list_files_of(lines) + (if list_line_kept(
            line,
        ) {
            seq![trim_spec(line)]
        } else {
            Seq::<Seq<char>>::empty()
        }));
    } else {
        assert(lines.push(line).drop_first() =~~= lines.drop_first().push(line));
        assert(lines.push(line)[0] == lines[0]);
        lemma_list_files_push(lines.drop_first(), line);
        assert(list_files_of(lines.push(line)) =~~= list_files_of(lines) + (if list_line_kept(
            line,
        ) {
            seq![trim_spec(line)]
        } else {
            Seq::<Seq<char>>::empty()
        }));
    }
}

/// Read the file names out of the tool's list output: one per non-empty
/// line of the output, skipping the banner lines.
pub fn parse_list_output(stdout: &str) -> (r: Vec<String>)
    ensures
        r.deep_view() == list_files_of(split_lines(stdout@)),
{
    let lines = split_lines_vec(stdout);
    let mut out: Vec<String> = Vec::new();
    let mut i: usize = 0;
    proof {
        assert(split_lines(stdout@).take(0) =~~= Seq::<Seq<char>>::empty());
        assert(out.deep_view() =~~= list_files_of(split_lines(stdout@).take(0)));
    }
    while i < lines.len()
        invariant
            i <= lines@.len(),
            lines.deep_view() == split_lines(stdout@),
            out.deep_view() == list_files_of(split_lines(stdout@).take(i as int)),
        decreases lines@.len() - i,
    {
        let line = &lines[i];
        let trimmed = str_trim(line.as_str());
        let ghost lv = lines.deep_view()[i as int];
        proof {
            assert(lv == lines@[i as int]@);
        }
        let keep = !trimmed.as_str().is_empty() && !str_starts_with(line.as_str(), "Archive:")
            && !str_starts_with(line.as_str(), "Files:");
        proof {
            reveal_strlit("Archive:");
            reveal_strlit("Files:");
            assert(keep == list_line_kept(lv));
        }
        let ghost pre = out.deep_view();
        if keep {
            out.push(trimmed);
            proof {
                assert(out.deep_view() =~~= pre + seq![trim_spec(lv)]);
            }
        }
        proof {
            lemma_list_files_push(split_lines(stdout@).take(i as int), lv);
            assert(split_lines(stdout@).take(i as int).push(lv) =~~= split_lines(stdout@).take(
                i + 1,
            ));
            assert(out.deep_view() =~~= list_files_of(split_lines(stdout@).take(i + 1)));
        }
        i = i + 1;
    }
    proof {
        assert(split_lines(stdout@).take(lines@.len() as int) =~~= split_lines(stdout@));
    }
    out
}

} // verus!
