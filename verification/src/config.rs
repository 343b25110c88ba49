//! Application configuration: the snapshot of settings that scanning and
//! extraction consume.
//!
//! Loading and saving the configuration file is the driver's job; the
//! library holds the values, validates them, and applies the ignore
//! filter. An ignore entry is matched three ways: as an exact path, as a
//! plain substring of the file name, or — when it carries regex
//! metacharacters — as a regular expression over the file name. The
//! metacharacter sniffing is a heuristic kept by design: a literal name
//! holding a dot counts as regex-shaped.

use vstd::prelude::*;

use crate::error::{ConfigError, Error};
use crate::text::{contains_seq, str_contains, str_eq, str_eq_ignore_ascii_case, ascii_lower_of};
use crate::operations::path::{extension_of, file_name_of, join_path, path_exists,
    path_extension, path_file_name};

verus! {

/// Log level setting.
#[derive(Debug, Clone, Copy, PartialEq, Eq, Structural)]
pub enum LogLevel {
    /// Fatal errors, the most critical.
    Fatal,
    /// Error messages.
    Error,
    /// Warning messages.
    Warning,
    /// Informational messages.
    Info,
    /// Debug messages.
    Debug,
    /// Trace messages, the most verbose.
    Trace,
}

/// Extraction settings.
#[derive(Debug, Clone, PartialEq, Eq)]
pub struct ExtractionConfig {
    /// Archive name postfixes to process; each must end in the archive
    /// extension.
    pub postfixes: Vec<String>,
    /// Files to ignore: exact path, substring, or regex entries.
    pub ignored_files: Vec<String>,
    /// Whether corrupted archives are ignored.
    pub ignore_bad_files: bool,
    /// Whether archives are backed up before extraction.
    pub auto_backup: bool,
}

/// Saved user settings.
#[derive(Debug, Clone, PartialEq, Eq)]
pub struct SavedConfig {
    /// Last used directory.
    pub directory: String,
    /// Last used size threshold, in bytes.
    pub threshold: u64,
}

/// Appearance settings.
#[derive(Debug, Clone, PartialEq, Eq)]
pub struct AppearanceConfig {
    /// Theme mode: `light`, `dark` or `system`.
    pub theme_mode: String,
    /// Accent color, in hex notation.
    pub accent_color: String,
    /// Language: `auto`, `en`, `zh-CN` or `zh-TW`.
    pub language: String,
}

/// Advanced settings.
#[derive(Debug, Clone, PartialEq, Eq)]
pub struct AdvancedConfig {
    /// Whether debug information is shown.
    pub show_debug: bool,
    /// Log level for debugging.
    pub log_level: LogLevel,
    /// Whether this is the first launch.
    pub first_launch: bool,
    /// Custom extraction path; empty means the default.
    pub extraction_path: String,
    /// Custom backup path; empty means the default.
    pub backup_path: String,
    /// External unpacking tool path; empty means the bundled tool.
    pub ext_ba2_exe: String,
}

/// Update checking settings.
#[derive(Debug, Clone, PartialEq, Eq)]
pub struct UpdateConfig {
    /// Whether updates are checked at startup.
    pub check_at_startup: bool,
}

/// The whole application configuration.
#[derive(Debug, Clone, PartialEq, Eq)]
pub struct AppConfig {
    /// Extraction settings.
    pub extraction: ExtractionConfig,
    /// Saved user settings.
    pub saved: SavedConfig,
    /// Appearance settings.
    pub appearance: AppearanceConfig,
    /// Advanced settings.
    pub advanced: AdvancedConfig,
    /// Update checking settings.
    pub update: UpdateConfig,
}

/// The default archive postfixes.
pub open spec fn default_postfixes_spec() -> Seq<Seq<char>> {
    seq!["main.ba2"@, "materials.ba2"@, "misc.ba2"@, "scripts.ba2"@]
}

/// The default postfix allow-list.
fn default_postfixes() -> (r: Vec<String>)
    ensures
        r.deep_view() == default_postfixes_spec(),
{
    let mut v: Vec<String> = Vec::new();
    v.push(String::from_str("main.ba2"));
    v.push(String::from_str("materials.ba2"));
    v.push(String::from_str("misc.ba2"));
    v.push(String::from_str("scripts.ba2"));
    proof {
        assert(v.deep_view() =~~= default_postfixes_spec());
    }
    v
}

impl Default for LogLevel {
    /// Warnings are logged by default.
    fn default() -> (r: LogLevel)
        ensures
            r == LogLevel::Warning,
    {
        LogLevel::Warning
    }
}

impl Default for ExtractionConfig {
    /// The default postfixes, no ignore entries, bad files ignored,
    /// backups on.
    fn default() -> (r: ExtractionConfig)
        ensures
            r.postfixes.deep_view() == default_postfixes_spec(),
            r.ignored_files@.len() == 0,
            r.ignore_bad_files,
            r.auto_backup,
    {
        ExtractionConfig {
            postfixes: default_postfixes(),
            ignored_files: Vec::new(),
            ignore_bad_files: true,
            auto_backup: true,
        }
    }
}

impl Default for SavedConfig {
    /// No saved directory and no threshold.
    fn default() -> (r: SavedConfig)
        ensures
            r.directory@.len() == 0,
            r.threshold == 0,
    {
        SavedConfig { directory: String::new(), threshold: 0 }
    }
}

impl Default for AppearanceConfig {
    /// Dark theme, the default accent blue, automatic language.
    fn default() -> (r: AppearanceConfig)
        ensures
            r.theme_mode@ == "dark"@,
            r.accent_color@ == "#0078D4"@,
            r.language@ == "auto"@,
    {
        AppearanceConfig {
            theme_mode: String::from_str("dark"),
            accent_color: String::from_str("#0078D4"),
            language: String::from_str("auto"),
        }
    }
}

impl Default for AdvancedConfig {
    /// No debug output, warning-level logs, first launch set, all paths
    /// empty.
    fn default() -> (r: AdvancedConfig)
        ensures
            !r.show_debug,
            r.log_level == LogLevel::Warning,
            r.first_launch,
            r.extraction_path@.len() == 0,
            r.backup_path@.len() == 0,
            r.ext_ba2_exe@.len() == 0,
    {
        AdvancedConfig {
            show_debug: false,
            log_level: LogLevel::Warning,
            first_launch: true,
            extraction_path: String::new(),
            backup_path: String::new(),
            ext_ba2_exe: String::new(),
        }
    }
}

impl Default for UpdateConfig {
    /// Updates are checked at startup.
    fn default() -> (r: UpdateConfig)
        ensures
            r.check_at_startup,
    {
        UpdateConfig { check_at_startup: true }
    }
}

impl Default for AppConfig {
    /// Every section takes its default.
    fn default() -> (r: AppConfig)
        ensures
            r.extraction.postfixes.deep_view() == default_postfixes_spec(),
            r.extraction.ignored_files@.len() == 0,
            r.extraction.ignore_bad_files,
            r.extraction.auto_backup,
            r.saved.directory@.len() == 0,
            r.saved.threshold == 0,
            r.appearance.theme_mode@ == "dark"@,
            r.appearance.accent_color@ == "#0078D4"@,
            r.appearance.language@ == "auto"@,
            !r.advanced.show_debug,
            r.advanced.log_level == LogLevel::Warning,
            r.advanced.first_launch,
            r.advanced.extraction_path@.len() == 0,
            r.advanced.backup_path@.len() == 0,
            r.advanced.ext_ba2_exe@.len() == 0,
            r.update.check_at_startup,
    {
        AppConfig {
            extraction: Default::default(),
            saved: Default::default(),
            appearance: Default::default(),
            advanced: Default::default(),
            update: Default::default(),
        }
    }
}

#[verifier::external_type_specification]
#[verifier::external_body]
pub struct ExRegex(regex::Regex);

/// The pattern a compiled regex applies, a fixed attribute of the
/// value; for a regex built by `regex::Regex::new` it is the pattern
/// handed in, the string `as_str` returns.
pub uninterp spec fn regex_source(re: regex::Regex) -> Seq<char>;

/// Whether `regex::Regex::new` accepts a pattern; it depends on the
/// pattern alone.
pub uninterp spec fn regex_ok(pattern: Seq<char>) -> bool;

/// What `regex::Regex::is_match` answers for a pattern and a haystack;
/// it depends on the two strings alone.
pub uninterp spec fn regex_match(pattern: Seq<char>, text: Seq<char>) -> bool;

/// Relies on `regex::Regex::new`: compilation succeeds exactly on valid
/// patterns, and the compiled regex keeps its pattern, as `as_str`
/// returns it. On failure the error text is returned.
#[verifier::external_body]
pub fn regex_new(pattern: &str) -> (r: Result<regex::Regex, String>)
    ensures
        r is Ok <==> regex_ok(pattern@),
        r matches Ok(re) ==> regex_source(re) == pattern@,
{
    match regex::Regex::new(pattern) {
        Ok(re) => Ok(re),
        Err(e) => Err(e.to_string()),
    }
}

/// Relies on `regex::Regex::is_match`: whether the regex matches
/// anywhere in the text, a function of its pattern and the text.
#[verifier::external_body]
pub fn regex_is_match(re: &regex::Regex, text: &str) -> (r: bool)
    ensures
        r == regex_match(regex_source(*re), text@),
{
    re.is_match(text)
}

/// A character that marks a pattern as regex-shaped.
pub open spec fn is_regex_meta(c: char) -> bool {
    c == '[' || c == ']' || c == '(' || c == ')' || c == '*' || c == '+' || c == '?' || c == '|'
        || c == '^' || c == '$' || c == '\\' || c == '.'
}

/// A pattern looks like a regex when it holds any regex metacharacter.
pub open spec fn looks_like_regex_spec(s: Seq<char>) -> bool {
    exists|i: int| 0 <= i < s.len() && is_regex_meta(s[i])
}

/// Check if a pattern looks like a regular expression. This is a
/// heuristic: any regex metacharacter marks the pattern as regex-shaped.
pub fn looks_like_regex(pattern: &str) -> (r: bool)
    ensures
        r == looks_like_regex_spec(pattern@),
{
    let len = pattern.unicode_len();
    let mut i: usize = 0;
    while i < len
        invariant
            i <= len,
            len == pattern@.len(),
            forall|k: int| 0 <= k < i ==> !is_regex_meta(pattern@[k]),
        decreases len - i,
    {
        let c = pattern.get_char(i);
        if c == '[' || c == ']' || c == '(' || c == ')' || c == '*' || c == '+' || c == '?' || c
            == '|' || c == '^' || c == '$' || c == '\\' || c == '.' {
            return true;
        }
        i = i + 1;
    }
    false
}

/// The pattern views of a list of ignore entries.
pub open spec fn views_of(v: Seq<String>) -> Seq<Seq<char>> {
    Seq::new(v.len(), |i: int| v[i]@)
}

/// The patterns of a list of compiled regexes.
pub open spec fn sources_of(v: Seq<regex::Regex>) -> Seq<Seq<char>> {
    Seq::new(v.len(), |i: int| regex_source(v[i]))
}

/// Some non-regex-shaped ignore entry occurs in the file name as a plain
/// substring.
pub open spec fn substring_ignored(file_name: Seq<char>, ignored: Seq<Seq<char>>) -> bool {
    exists|i: int|
        0 <= i < ignored.len() && !looks_like_regex_spec(ignored[i]) && contains_seq(
            file_name,
            ignored[i],
        )
}

/// Some compiled pattern matches the file name.
pub open spec fn regex_ignored(file_name: Seq<char>, patterns: Seq<Seq<char>>) -> bool {
    exists|i: int| 0 <= i < patterns.len() && regex_match(patterns[i], file_name)
}

/// Check if a file name is ignored: a non-regex entry matching as a
/// substring, or a compiled regex pattern matching the name.
pub fn should_ignore_file(
    file_name: &str,
    ignored_files: &Vec<String>,
    regex_patterns: &Vec<regex::Regex>,
) -> (r: bool)
    ensures
        r == (substring_ignored(file_name@, views_of(ignored_files@)) || regex_ignored(
            file_name@,
            sources_of(regex_patterns@),
        )),
{
    let mut i: usize = 0;
    while i < ignored_files.len()
        invariant
            i <= ignored_files@.len(),
            forall|k: int|
                0 <= k < i ==> !(!looks_like_regex_spec(views_of(ignored_files@)[k])
                    && contains_seq(file_name@, views_of(ignored_files@)[k])),
        decreases ignored_files@.len() - i,
    {
        let pattern = &ignored_files[i];
        proof {
            assert(views_of(ignored_files@)[i as int] == ignored_files@[i as int]@);
        }
        if !looks_like_regex(pattern.as_str()) {
            if str_contains(file_name, pattern.as_str()) {
                proof {
                    assert(substring_ignored(file_name@, views_of(ignored_files@)));
                }
                return true;
            }
        }
        i = i + 1;
    }
    let mut j: usize = 0;
    while j < regex_patterns.len()
        invariant
            j <= regex_patterns@.len(),
            forall|k: int|
                0 <= k < j ==> !regex_match(sources_of(regex_patterns@)[k], file_name@),
            forall|k: int|
                0 <= k < views_of(ignored_files@).len() ==> !(!looks_like_regex_spec(
                    views_of(ignored_files@)[k],
                ) && contains_seq(file_name@, views_of(ignored_files@)[k])),
        decreases regex_patterns@.len() - j,
    {
        if regex_is_match(&regex_patterns[j], file_name) {
            proof {
                assert(sources_of(regex_patterns@)[j as int] == regex_source(
                    regex_patterns@[j as int],
                ));
                assert(regex_ignored(file_name@, sources_of(regex_patterns@)));
            }
            return true;
        }
        j = j + 1;
    }
    false
}

/// The regex-shaped entries of an ignore list, in order.
pub open spec fn regex_shaped_of(ignored: Seq<Seq<char>>) -> Seq<Seq<char>> {
    ignored.filter(|p: Seq<char>| looks_like_regex_spec(p))
}

/// Every regex-shaped entry of an ignore list compiles.
pub open spec fn all_patterns_ok(ignored: Seq<Seq<char>>) -> bool {
    forall|i: int|
        0 <= i < ignored.len() && looks_like_regex_spec(#[trigger] ignored[i]) ==> regex_ok(
            ignored[i],
        )
}

/// A postfix entry is valid when its extension is the archive extension,
/// compared without regard to ASCII case.
pub open spec fn postfix_valid(p: Seq<char>) -> bool {
    match extension_of(p) {
        Some(ext) => ascii_lower_of(ext) == ascii_lower_of("ba2"@),
        None => false,
    }
}

/// Every postfix of the list is valid.
pub open spec fn all_postfixes_valid(postfixes: Seq<Seq<char>>) -> bool {
    forall|i: int| 0 <= i < postfixes.len() ==> postfix_valid(#[trigger] postfixes[i])
}

/// Whether a file is ignored by the configuration: its full path equals
/// an ignore entry exactly, a non-regex entry occurs in its name, or a
/// regex-shaped entry matches its name. A path without a file name is
/// never ignored, and when some regex-shaped entry does not compile the
/// regex entries are skipped.
pub open spec fn ignored_file_spec(config: AppConfig, path: Seq<char>) -> bool {
    match file_name_of(path) {
        Some(name) => {
            ||| exists|i: int|
                0 <= i < config.extraction.ignored_files@.len()
                    && (#[trigger] config.extraction.ignored_files@[i])@ == path
            ||| substring_ignored(name, views_of(config.extraction.ignored_files@))
            ||| (all_patterns_ok(views_of(config.extraction.ignored_files@)) && regex_ignored(
                name,
                regex_shaped_of(views_of(config.extraction.ignored_files@)),
            ))
        },
        None => false,
    }
}

/// An ignore entry equal to a file's exact path ignores that file;
/// whether any other file is ignored still depends only on its own path
/// and name, as [`ignored_file_spec`] states.
pub proof fn lemma_exact_path_is_ignored(config: AppConfig, path: Seq<char>, i: int)
    requires
        0 <= i < config.extraction.ignored_files@.len(),
        (config.extraction.ignored_files@[i])@ == path,
        file_name_of(path) is Some,
    ensures
        ignored_file_spec(config, path),
{
    assert((#[trigger] config.extraction.ignored_files@[i])@ == path);
}

/// Relies on `directories::ProjectDirs::from` and `config_dir`: the
/// per-user configuration directory for this application. The answer
/// comes from the process environment; a directory that is not valid
/// Unicode is treated as absent.
#[verifier::external_body]
fn project_config_dir() -> Option<String> {
    match directories::ProjectDirs::from("com", "evildarkarchon", "unpackrr") {
        Some(dirs) => match dirs.config_dir().to_str() {
            Some(s) => Some(s.to_owned()),
            None => None,
        },
        None => None,
    }
}

impl AppConfig {
    /// The configuration directory, as the environment names it.
    pub fn config_dir() -> (r: Result<String, Error>)
        ensures
            r matches Err(e) ==> (e matches Error::Config(ConfigError::ValidationFailed(m)) && m@
                == "Could not determine config directory"@),
    {
        match project_config_dir() {
            Some(dir) => Ok(dir),
            None => Err(
                Error::Config(
                    ConfigError::ValidationFailed(
                        String::from_str("Could not determine config directory"),
                    ),
                ),
            ),
        }
    }

    /// The configuration file path: the configuration file inside the
    /// configuration directory.
    pub fn config_file_path() -> (r: Result<String, Error>)
        ensures
            r matches Ok(p) ==> {
                &&& p@.len() >= "config.json"@.len()
                &&& p@.subrange(p@.len() - "config.json"@.len(), p@.len() as int)
                    == "config.json"@
            },
            r matches Err(e) ==> (e matches Error::Config(ConfigError::ValidationFailed(m)) && m@
                == "Could not determine config directory"@),
    {
        match Self::config_dir() {
            Ok(dir) => {
                let path = join_path(dir.as_str(), "config.json");
                proof {
                    assert(path@.subrange(
                        path@.len() - "config.json"@.len(),
                        path@.len() as int,
                    ) =~= "config.json"@);
                }
                Ok(path)
            },
            Err(e) => Err(e),
        }
    }

    /// Compile the regex-shaped ignore entries, in order. Compilation
    /// succeeds exactly when every regex-shaped entry is a valid
    /// pattern; the first invalid one is reported.
    pub fn get_ignored_patterns(&self) -> (r: Result<Vec<regex::Regex>, Error>)
        ensures
            r is Ok <==> all_patterns_ok(views_of(self.extraction.ignored_files@)),
            r matches Ok(v) ==> sources_of(v@) == regex_shaped_of(
                views_of(self.extraction.ignored_files@),
            ),
            r matches Err(e) ==> (e matches Error::Config(ConfigError::InvalidRegex {
                pattern,
                source,
            }) && looks_like_regex_spec(pattern@) && !regex_ok(pattern@)),
    {
        let ghost all = views_of(self.extraction.ignored_files@);
        let mut patterns: Vec<regex::Regex> = Vec::new();
        let mut i: usize = 0;
        proof {
            reveal(Seq::filter);
            assert(all.take(0) =~= Seq::<Seq<char>>::empty());
            assert(sources_of(patterns@) =~= regex_shaped_of(all.take(0)));
        }
        while i < self.extraction.ignored_files.len()
            invariant
                i <= self.extraction.ignored_files@.len(),
                all == views_of(self.extraction.ignored_files@),
                all.len() == self.extraction.ignored_files@.len(),
                sources_of(patterns@) == regex_shaped_of(all.take(i as int)),
                forall|k: int|
                    0 <= k < i && looks_like_regex_spec(#[trigger] all[k]) ==> regex_ok(all[k]),
            decreases self.extraction.ignored_files@.len() - i,
        {
            let pattern = &self.extraction.ignored_files[i];
            proof {
                assert(all[i as int] == pattern@);
            }
            if looks_like_regex(pattern.as_str()) {
                match regex_new(pattern.as_str()) {
                    Ok(re) => {
                        let ghost pre = patterns@;
                        patterns.push(re);
                        proof {
                            reveal(Seq::filter);
                            assert(all.take(i + 1).drop_last() =~= all.take(i as int));
                            assert(all.take(i + 1).last() == all[i as int]);
                            assert(regex_shaped_of(all.take(i + 1)) == regex_shaped_of(
                                all.take(i as int),
                            ).push(all[i as int]));
                            assert(sources_of(patterns@) =~= sources_of(pre).push(
                                regex_source(re),
                            ));
                        }
                    },
                    Err(source_text) => {
                        return Err(
                            Error::Config(
                                ConfigError::InvalidRegex {
                                    pattern: pattern.clone(),
                                    source: source_text,
                                },
                            ),
                        );
                    },
                }
            } else {
                proof {
                    reveal(Seq::filter);
                    assert(all.take(i + 1).drop_last() =~= all.take(i as int));
                    assert(all.take(i + 1).last() == all[i as int]);
                    assert(regex_shaped_of(all.take(i + 1)) == regex_shaped_of(all.take(i as int)));
                }
            }
            i = i + 1;
        }
        proof {
            assert(all.take(all.len() as int) =~= all);
        }
        Ok(patterns)
    }

    /// Check if a file is ignored: by its exact full path, by a
    /// substring of its name, or by a regex over its name. A path
    /// without a file name is never ignored, and when some regex entry
    /// does not compile the regex entries are skipped.
    pub fn should_ignore_file(&self, path: &str) -> (r: bool)
        ensures
            r == ignored_file_spec(*self, path@),
    {
        let name = match path_file_name(path) {
            Some(name) => name,
            None => {
                return false;
            },
        };
        let mut i: usize = 0;
        while i < self.extraction.ignored_files.len()
            invariant
                i <= self.extraction.ignored_files@.len(),
                file_name_of(path@) == Some(name@),
                forall|k: int|
                    0 <= k < i ==> (#[trigger] self.extraction.ignored_files@[k])@ != path@,
            decreases self.extraction.ignored_files@.len() - i,
        {
            if str_eq(self.extraction.ignored_files[i].as_str(), path) {
                proof {
                    assert((#[trigger] self.extraction.ignored_files@[i as int])@ == path@);
                }
                return true;
            }
            i = i + 1;
        }
        match self.get_ignored_patterns() {
            Ok(patterns) => should_ignore_file(
                name.as_str(),
                &self.extraction.ignored_files,
                &patterns,
            ),
            Err(_) => {
                let empty: Vec<regex::Regex> = Vec::new();
                let r = should_ignore_file(name.as_str(), &self.extraction.ignored_files, &empty);
                proof {
                    assert(sources_of(empty@) =~= Seq::<Seq<char>>::empty());
                }
                r
            },
        }
    }

    /// Validate the configuration: every postfix must carry the archive
    /// extension, every regex-shaped ignore entry must compile, and a
    /// configured external tool must exist on disk.
    pub fn validate(&self) -> (r: Result<(), Error>)
        ensures
            r is Ok ==> all_postfixes_valid(views_of(self.extraction.postfixes@))
                && all_patterns_ok(views_of(self.extraction.ignored_files@)),
            self.advanced.ext_ba2_exe@.len() == 0 ==> (r is Ok <==> (all_postfixes_valid(
                views_of(self.extraction.postfixes@),
            ) && all_patterns_ok(views_of(self.extraction.ignored_files@)))),
            r matches Err(e) ==> (e matches Error::Config(c) && (c matches
            ConfigError::ValidationFailed(_) || c matches ConfigError::InvalidRegex { .. }
                || c matches ConfigError::InvalidPath(_))),
    {
        let ghost posts = views_of(self.extraction.postfixes@);
        let mut i: usize = 0;
        while i < self.extraction.postfixes.len()
            invariant
                i <= self.extraction.postfixes@.len(),
                posts == views_of(self.extraction.postfixes@),
                forall|k: int| 0 <= k < i ==> postfix_valid(#[trigger] posts[k]),
            decreases self.extraction.postfixes@.len() - i,
        {
            let postfix = &self.extraction.postfixes[i];
            proof {
                assert(posts[i as int] == postfix@);
            }
            let ok = match path_extension(postfix.as_str()) {
                Some(ext) => str_eq_ignore_ascii_case(ext.as_str(), "ba2"),
                None => false,
            };
            if !ok {
                return Err(
                    Error::Config(
                        ConfigError::ValidationFailed(
                            String::from_str("Postfix '").concat(postfix.as_str()).concat(
                                "' must end with .ba2",
                            ),
                        ),
                    ),
                );
            }
            i = i + 1;
        }
        if !self.advanced.ext_ba2_exe.as_str().is_empty() {
            if !path_exists(self.advanced.ext_ba2_exe.as_str()) {
                return Err(
                    Error::Config(ConfigError::InvalidPath(self.advanced.ext_ba2_exe.clone())),
                );
            }
        }
        match self.get_ignored_patterns() {
            Ok(_) => Ok(()),
            Err(e) => Err(e),
        }
    }
}

} // verus!
