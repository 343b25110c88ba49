//! Reading, filtering and counting application log lines.
//!
//! A structured line looks like
//! `2025-01-22T10:30:45.123456Z  INFO some::target: the message`;
//! anything else is kept as an unparsed entry so that no line is ever
//! lost from the viewer.

use vstd::prelude::*;

use crate::text::{
    clone_opt_string, first_match, has_char, split_whitespace_vec, split_ws, str_eq, str_find,
    str_has_char, str_trim, str_trim_start, trim_spec, trim_start_spec,
};

verus! {

/// One log entry.
#[derive(Debug, Clone, PartialEq, Eq)]
pub struct LogEntry {
    /// The full raw line.
    pub raw_line: String,
    /// The parsed level, when the line is structured.
    pub level: Option<LogLevel>,
    /// The timestamp, when the line starts with one.
    pub timestamp: Option<String>,
    /// The log target, when the line names one.
    pub target: Option<String>,
    /// The message itself.
    pub message: String,
}

/// Log levels, from most verbose to most severe.
#[derive(Debug, Clone, Copy, PartialEq, Eq, PartialOrd, Ord, Structural)]
pub enum LogLevel {
    /// Trace-level logging, the most verbose.
    Trace,
    /// Debug-level logging.
    Debug,
    /// Informational logging.
    Info,
    /// Warnings.
    Warn,
    /// Errors, the most severe.
    Error,
}

/// The severity rank of a level, trace lowest.
pub open spec fn level_rank(l: LogLevel) -> int {
    match l {
        LogLevel::Trace => 0,
        LogLevel::Debug => 1,
        LogLevel::Info => 2,
        LogLevel::Warn => 3,
        LogLevel::Error => 4,
    }
}

impl LogLevel {
    /// Relies on equality of `tracing::Level` values: maps each of the
    /// five levels of the tracing framework onto the matching level
    /// here.
    #[verifier::external_body]
    pub fn from_tracing_level(level: &tracing::Level) -> LogLevel {
        match *level {
            tracing::Level::TRACE => LogLevel::Trace,
            tracing::Level::DEBUG => LogLevel::Debug,
            tracing::Level::INFO => LogLevel::Info,
            tracing::Level::WARN => LogLevel::Warn,
            tracing::Level::ERROR => LogLevel::Error,
        }
    }

    /// The display name of the level.
    pub fn as_str(&self) -> (r: &str)
        ensures
            r@ == level_name(*self),
    {
        match self {
            LogLevel::Trace => "TRACE",
            LogLevel::Debug => "DEBUG",
            LogLevel::Info => "INFO",
            LogLevel::Warn => "WARN",
            LogLevel::Error => "ERROR",
        }
    }

    /// The display color of the level, as a hex code.
    pub fn color(&self) -> (r: &str)
        ensures
            r@ == level_color(*self),
    {
        match self {
            LogLevel::Error => "#FF0000",
            LogLevel::Warn => "#FF6A5B",
            LogLevel::Info => "#FFFFFF",
            LogLevel::Debug => "#A0A0A0",
            LogLevel::Trace => "#808080",
        }
    }
}

/// The display name of a level.
pub open spec fn level_name(l: LogLevel) -> Seq<char> {
    match l {
        LogLevel::Trace => "TRACE"@,
        LogLevel::Debug => "DEBUG"@,
        LogLevel::Info => "INFO"@,
        LogLevel::Warn => "WARN"@,
        LogLevel::Error => "ERROR"@,
    }
}

/// The display color of a level.
pub open spec fn level_color(l: LogLevel) -> Seq<char> {
    match l {
        LogLevel::Error => "#FF0000"@,
        LogLevel::Warn => "#FF6A5B"@,
        LogLevel::Info => "#FFFFFF"@,
        LogLevel::Debug => "#A0A0A0"@,
        LogLevel::Trace => "#808080"@,
    }
}

/// The level a level token names, if any.
pub open spec fn level_of_token(tok: Seq<char>) -> Option<LogLevel> {
    if tok == "TRACE"@ {
        Some(LogLevel::Trace)
    } else if tok == "DEBUG"@ {
        Some(LogLevel::Debug)
    } else if tok == "INFO"@ {
        Some(LogLevel::Info)
    } else if tok == "WARN"@ {
        Some(LogLevel::Warn)
    } else if tok == "ERROR"@ {
        Some(LogLevel::Error)
    } else {
        None
    }
}

/// A token is shaped like a timestamp: it holds a `T` and either a `Z`
/// or a `+`.
pub open spec fn ts_shaped(tok: Seq<char>) -> bool {
    has_char(tok, 'T') && (has_char(tok, 'Z') || has_char(tok, '+'))
}

/// A line is structured: at least three whitespace tokens, the first
/// shaped like a timestamp.
pub open spec fn line_structured(line: Seq<char>) -> bool {
    split_ws(line).len() >= 3 && ts_shaped(split_ws(line)[0])
}

/// The timestamp a line carries.
pub open spec fn line_timestamp(line: Seq<char>) -> Option<Seq<char>> {
    if line_structured(line) {
        Some(split_ws(line)[0])
    } else {
        None
    }
}

/// The level a line carries.
pub open spec fn line_level(line: Seq<char>) -> Option<LogLevel> {
    if line_structured(line) {
        level_of_token(split_ws(line)[1])
    } else {
        None
    }
}

/// The rest of a structured line after its level token: everything
/// past the first occurrence of the token, with leading whitespace
/// removed.
pub open spec fn line_rest(line: Seq<char>) -> Seq<char> {
    let tok = split_ws(line)[1];
    let after = match first_match(line, tok, 0) {
        Some(p) => p + tok.len(),
        None => 0,
    };
    trim_start_spec(line.skip(after))
}

/// The target a line names, when its rest splits at a colon and space.
pub open spec fn line_target(line: Seq<char>) -> Option<Seq<char>> {
    if line_structured(line) && line_level(line) is Some {
        match first_match(line_rest(line), ": "@, 0) {
            Some(p) => Some(line_rest(line).take(p)),
            None => None,
        }
    } else {
        None
    }
}

/// The message of a line: what follows the target separator of a
/// structured line, or the whole line, trimmed either way.
pub open spec fn line_message(line: Seq<char>) -> Seq<char> {
    if line_structured(line) && line_level(line) is Some {
        match first_match(line_rest(line), ": "@, 0) {
            Some(p) => trim_spec(line_rest(line).skip(p + 2)),
            None => trim_spec(line_rest(line)),
        }
    } else {
        trim_spec(line)
    }
}

/// Read the level named by a token.
fn parse_level_token(tok: &str) -> (r: Option<LogLevel>)
    ensures
        r == level_of_token(tok@),
{
    if str_eq(tok, "TRACE") {
        Some(LogLevel::Trace)
    } else if str_eq(tok, "DEBUG") {
        Some(LogLevel::Debug)
    } else if str_eq(tok, "INFO") {
        Some(LogLevel::Info)
    } else if str_eq(tok, "WARN") {
        Some(LogLevel::Warn)
    } else if str_eq(tok, "ERROR") {
        Some(LogLevel::Error)
    } else {
        None
    }
}

impl LogEntry {
    /// Parse one log line into a structured entry. Lines that do not
    /// carry a timestamp and level are kept whole, with only the
    /// message trimmed.
    pub fn parse(line: String) -> (r: LogEntry)
        ensures
            r.raw_line == line,
            r.level == line_level(line@),
            (match r.timestamp {
                Some(ts) => line_timestamp(line@) == Some(ts@),
                None => line_timestamp(line@) is None,
            }),
            (match r.target {
                Some(t) => line_target(line@) == Some(t@),
                None => line_target(line@) is None,
            }),
            r.message@ == line_message(line@),
    {
        let tokens = split_whitespace_vec(line.as_str());
        let structured = if tokens.len() >= 3 {
            let first = &tokens[0];
            proof {
                assert(tokens.deep_view()[0] == tokens@[0]@);
            }
            str_has_char(first.as_str(), 'T') && (str_has_char(first.as_str(), 'Z')
                || str_has_char(first.as_str(), '+'))
        } else {
            false
        };
        if !structured {
            let message = str_trim(line.as_str());
            return LogEntry { raw_line: line, level: None, timestamp: None, target: None, message };
        }
        proof {
            assert(tokens.deep_view()[0] == tokens@[0]@);
            assert(tokens.deep_view()[1] == tokens@[1]@);
        }
        let timestamp = Some(tokens[0].clone());
        let level = parse_level_token(tokens[1].as_str());
        if level.is_none() {
            let message = str_trim(line.as_str());
            return LogEntry { raw_line: line, level: None, timestamp, target: None, message };
        }
        let llen = line.as_str().unicode_len();
        let after_level = match str_find(line.as_str(), tokens[1].as_str()) {
            Some(p) => p + tokens[1].as_str().unicode_len(),
            None => 0,
        };
        let tail = line.as_str().substring_char(after_level, llen);
        let rest = str_trim_start(tail);
        proof {
            assert(tail@ =~= line@.skip(after_level as int));
            assert(rest@ == line_rest(line@));
        }
        match str_find(rest.as_str(), ": ") {
            Some(colon) => {
                let target = Some(rest.as_str().substring_char(0, colon).to_owned());
                let rlen = rest.as_str().unicode_len();
                proof {
                    reveal_strlit(": ");
                    assert(colon + 2 <= rlen);
                }
                let message = str_trim(rest.as_str().substring_char(colon + 2, rlen));
                proof {
                    assert(rest@.subrange(0, colon as int) =~= rest@.take(colon as int));
                    assert(rest@.subrange(colon + 2, rlen as int) =~= rest@.skip(colon + 2));
                }
                LogEntry { raw_line: line, level, timestamp, target, message }
            },
            None => {
                let message = str_trim(rest.as_str());
                proof {
                    reveal_strlit(": ");
                }
                LogEntry { raw_line: line, level, timestamp, target: None, message }
            },
        }
    }

    /// Whether this entry passes a severity filter: entries at or above
    /// the filter level pass, and unparsed entries always show.
    pub fn matches_filter(&self, filter: Option<LogLevel>) -> (r: bool)
        ensures
            r == (match (self.level, filter) {
                (Some(e), Some(f)) => level_rank(e) >= level_rank(f),
                _ => true,
            }),
    {
        match (&self.level, &filter) {
            (Some(e), Some(f)) => level_rank_exec(*e) >= level_rank_exec(*f),
            _ => true,
        }
    }
}

/// The severity rank of a level.
fn level_rank_exec(l: LogLevel) -> (r: u8)
    ensures
        r as int == level_rank(l),
{
    match l {
        LogLevel::Trace => 0,
        LogLevel::Debug => 1,
        LogLevel::Info => 2,
        LogLevel::Warn => 3,
        LogLevel::Error => 4,
    }
}

/// Copy a log entry field by field.
fn clone_log_entry(e: &LogEntry) -> (r: LogEntry)
    ensures
        r == *e,
{
    LogEntry {
        raw_line: e.raw_line.clone(),
        level: e.level,
        timestamp: clone_opt_string(&e.timestamp),
        target: clone_opt_string(&e.target),
        message: e.message.clone(),
    }
}

/// The entries of a sequence that pass a filter.
pub open spec fn filtered_entries(s: Seq<LogEntry>, filter: Option<LogLevel>) -> Seq<LogEntry>
    decreases s.len(),
{
    if s.len() == 0 {
        Seq::empty()
    } else {
        filtered_entries(s.drop_last(), filter) + (if (match (s.last().level, filter) {
            (Some(e), Some(f)) => level_rank(e) >= level_rank(f),
            _ => true,
        }) {
            seq![s.last()]
        } else {
            Seq::empty()
        })
    }
}

/// The number of entries of a sequence at the given level.
pub open spec fn level_count(s: Seq<LogEntry>, l: LogLevel) -> int
    decreases s.len(),
{
    if s.len() == 0 {
        0
    } else {
        level_count(s.drop_last(), l) + (if s.last().level == Some(l) {
            1int
        } else {
            0int
        })
    }
}

/// The viewer: loaded entries and the active severity filter.
#[derive(Debug)]
pub struct LogViewer {
    entries: Vec<LogEntry>,
    filter_level: Option<LogLevel>,
}

impl View for LogViewer {
    type V = Seq<LogEntry>;

    closed spec fn view(&self) -> Seq<LogEntry> {
        self.entries@
    }
}

impl LogViewer {
    /// The active filter, as an abstract value.
    pub closed spec fn filter_spec(&self) -> Option<LogLevel> {
        self.filter_level
    }

    /// Create a new, empty viewer with no filter.
    pub fn new() -> (r: LogViewer)
        ensures
            r@ == Seq::<LogEntry>::empty(),
            r.filter_spec() is None,
    {
        LogViewer { entries: Vec::new(), filter_level: None }
    }

    /// Load the given log lines, replacing anything loaded before; each
    /// line parses into one entry, in order.
    pub fn load_logs(&mut self, lines: Vec<String>)
        ensures
            final(self)@.len() == lines@.len(),
            forall|i: int|
                0 <= i < lines@.len() ==> (#[trigger] final(self)@[i]).raw_line == lines@[i]
                    && final(self)@[i].level == line_level(lines@[i]@) && final(self)@[i].message@
                    == line_message(lines@[i]@),
            final(self).filter_spec() == old(self).filter_spec(),
    {
        let mut entries: Vec<LogEntry> = Vec::new();
        let mut remaining = lines;
        let ghost all = remaining@;
        while remaining.len() > 0
            invariant
                all.len() == entries@.len() + remaining@.len(),
                remaining@ == all.skip(entries@.len() as int),
                forall|k: int|
                    0 <= k < entries@.len() ==> (#[trigger] entries@[k]).raw_line == all[k]
                        && entries@[k].level == line_level(all[k]@) && entries@[k].message@
                        == line_message(all[k]@),
            decreases remaining@.len(),
        {
            let ghost done: int = entries@.len() as int;
            let line = remaining.remove(0);
            proof {
                assert(line == all[done]);
                assert(remaining@ =~= all.skip(done + 1));
            }
            entries.push(LogEntry::parse(line));
        }
        self.entries = entries;
    }

    /// Reload from the given lines; the same as loading them.
    pub fn refresh(&mut self, lines: Vec<String>)
        ensures
            final(self)@.len() == lines@.len(),
            forall|i: int|
                0 <= i < lines@.len() ==> (#[trigger] final(self)@[i]).raw_line == lines@[i]
                    && final(self)@[i].level == line_level(lines@[i]@) && final(self)@[i].message@
                    == line_message(lines@[i]@),
            final(self).filter_spec() == old(self).filter_spec(),
    {
        self.load_logs(lines);
    }

    /// Append one entry.
    pub fn push_entry(&mut self, entry: LogEntry)
        ensures
            final(self)@ == old(self)@.push(entry),
            final(self).filter_spec() == old(self).filter_spec(),
    {
        self.entries.push(entry);
    }

    /// The entries that pass the active filter, in order.
    pub fn get_filtered_entries(&self) -> (r: Vec<LogEntry>)
        ensures
            r@ == filtered_entries(self@, self.filter_spec()),
    {
        let mut out: Vec<LogEntry> = Vec::new();
        let mut i: usize = 0;
        proof {
            assert(self@.take(0) =~= Seq::<LogEntry>::empty());
        }
        while i < self.entries.len()
            invariant
                i <= self@.len(),
                self.filter_spec() == self.filter_level,
                out@ == filtered_entries(self@.take(i as int), self.filter_level),
            decreases self@.len() - i,
        {
            proof {
                assert(self@.take(i + 1).drop_last() =~= self@.take(i as int));
                assert(self@.take(i + 1).last() == self@[i as int]);
            }
            if self.entries[i].matches_filter(self.filter_level) {
                out.push(clone_log_entry(&self.entries[i]));
            }
            i = i + 1;
        }
        proof {
            assert(self@.take(self@.len() as int) =~= self@);
        }
        out
    }

    /// All loaded entries, unfiltered.
    pub fn get_all_entries(&self) -> (r: &Vec<LogEntry>)
        ensures
            r@ == self@,
    {
        &self.entries
    }

    /// Set the severity filter; nothing filters when it is `None`.
    pub fn set_filter(&mut self, level: Option<LogLevel>)
        ensures
            final(self).filter_spec() == level,
            final(self)@ == old(self)@,
    {
        self.filter_level = level;
    }

    /// The active severity filter.
    pub fn get_filter(&self) -> (r: Option<LogLevel>)
        ensures
            r == self.filter_spec(),
    {
        self.filter_level
    }

    /// Drop all loaded entries.
    pub fn clear(&mut self)
        ensures
            final(self)@ == Seq::<LogEntry>::empty(),
            final(self).filter_spec() == old(self).filter_spec(),
    {
        self.entries.clear();
    }

    /// How many entries sit at each level, from trace to error;
    /// unparsed lines count nowhere.
    pub fn get_level_counts(&self) -> (r: (usize, usize, usize, usize, usize))
        ensures
            r.0 == level_count(self@, LogLevel::Trace),
            r.1 == level_count(self@, LogLevel::Debug),
            r.2 == level_count(self@, LogLevel::Info),
            r.3 == level_count(self@, LogLevel::Warn),
            r.4 == level_count(self@, LogLevel::Error),
    {
        let mut trace: usize = 0;
        let mut debug: usize = 0;
        let mut info: usize = 0;
        let mut warn: usize = 0;
        let mut error: usize = 0;
        let mut i: usize = 0;
        proof {
            assert(self@.take(0) =~= Seq::<LogEntry>::empty());
        }
        while i < self.entries.len()
            invariant
                i <= self@.len(),
                trace == level_count(self@.take(i as int), LogLevel::Trace),
                debug == level_count(self@.take(i as int), LogLevel::Debug),
                info == level_count(self@.take(i as int), LogLevel::Info),
                warn == level_count(self@.take(i as int), LogLevel::Warn),
                error == level_count(self@.take(i as int), LogLevel::Error),
                trace + debug + info + warn + error <= i,
            decreases self@.len() - i,
        {
            proof {
                assert(self@.take(i + 1).drop_last() =~= self@.take(i as int));
                assert(self@.take(i + 1).last() == self@[i as int]);
                lemma_level_count_nonneg(self@.take(i as int), LogLevel::Trace);
                lemma_level_count_nonneg(self@.take(i as int), LogLevel::Debug);
                lemma_level_count_nonneg(self@.take(i as int), LogLevel::Info);
                lemma_level_count_nonneg(self@.take(i as int), LogLevel::Warn);
                lemma_level_count_nonneg(self@.take(i as int), LogLevel::Error);
            }
            match &self.entries[i].level {
                Some(LogLevel::Trace) => {
                    trace = trace + 1;
                },
                Some(LogLevel::Debug) => {
                    debug = debug + 1;
                },
                Some(LogLevel::Info) => {
                    info = info + 1;
                },
                Some(LogLevel::Warn) => {
                    warn = warn + 1;
                },
                Some(LogLevel::Error) => {
                    error = error + 1;
                },
                None => {},
            }
            i = i + 1;
        }
        proof {
            assert(self@.take(self@.len() as int) =~= self@);
        }
        (trace, debug, info, warn, error)
    }
}

/// Counts of entries at a level are never negative.
proof fn lemma_level_count_nonneg(s: Seq<LogEntry>, l: LogLevel)
    ensures
        level_count(s, l) >= 0,
    decreases s.len(),
{
    if s.len() > 0 {
        lemma_level_count_nonneg(s.drop_last(), l);
    }
}

impl Default for LogViewer {
    /// A new, empty viewer.
    fn default() -> (r: LogViewer)
        ensures
            r@ == Seq::<LogEntry>::empty(),
            r.filter_spec() is None,
    {
        LogViewer::new()
    }
}

} // verus!
