//! Path handling utilities.
//!
//! Paths are carried as plain strings. Queries that consult the file
//! system go through trusted wrappers; their answers depend on the state
//! of the disk, so nothing is promised of them beyond their shape.

use vstd::prelude::*;

use crate::error::{Error, IoKind};
use crate::text::push_char;

verus! {

/// Relies on `std::path::Path::exists`: whether the path points at an
/// existing entity on disk.
#[verifier::external_body]
pub fn path_exists(p: &str) -> bool {
    std::path::Path::new(p).exists()
}

/// Relies on `std::path::Path::is_dir`: whether the path points at an
/// existing directory.
#[verifier::external_body]
pub fn path_is_dir(p: &str) -> bool {
    std::path::Path::new(p).is_dir()
}

/// Relies on `std::path::Path::is_file`: whether the path points at an
/// existing regular file.
#[verifier::external_body]
pub fn path_is_file(p: &str) -> bool {
    std::path::Path::new(p).is_file()
}

/// Relies on `std::path::Path::is_absolute`: whether the path is
/// absolute on this platform.
#[verifier::external_body]
pub fn path_is_absolute(p: &str) -> bool {
    std::path::Path::new(p).is_absolute()
}

/// What `std::path::Path::parent` returns; it depends on the path alone.
pub uninterp spec fn parent_of(p: Seq<char>) -> Option<Seq<char>>;

/// Relies on `std::path::Path::parent`: the path without its final
/// component, or `None` for a root or empty path. A path whose parent is
/// not valid Unicode is treated as having none.
#[verifier::external_body]
fn path_parent(p: &str) -> (r: Option<String>)
    ensures
        match r {
            Some(s) => parent_of(p@) == Some(s@),
            None => parent_of(p@) is None,
        },
{
    match std::path::Path::new(p).parent() {
        Some(parent) => match parent.to_str() {
            Some(s) => Some(s.to_owned()),
            None => None,
        },
        None => None,
    }
}

/// What `std::path::Path::file_name` returns; it depends on the path
/// alone.
pub uninterp spec fn file_name_of(p: Seq<char>) -> Option<Seq<char>>;

/// Relies on `std::path::Path::file_name`: the final component of the
/// path, or `None` when it ends in a parent reference or is a root. A
/// name that is not valid Unicode is treated as absent.
#[verifier::external_body]
pub fn path_file_name(p: &str) -> (r: Option<String>)
    ensures
        match r {
            Some(s) => file_name_of(p@) == Some(s@),
            None => file_name_of(p@) is None,
        },
{
    match std::path::Path::new(p).file_name() {
        Some(name) => match name.to_str() {
            Some(s) => Some(s.to_owned()),
            None => None,
        },
        None => None,
    }
}

/// What `std::path::Path::extension` returns; it depends on the path
/// alone.
pub uninterp spec fn extension_of(p: Seq<char>) -> Option<Seq<char>>;

/// Relies on `std::path::Path::extension`: the part of the final
/// component after its last dot, or `None` when there is no dot after
/// the first character. An extension that is not valid Unicode is
/// treated as absent.
#[verifier::external_body]
pub fn path_extension(p: &str) -> (r: Option<String>)
    ensures
        match r {
            Some(s) => extension_of(p@) == Some(s@),
            None => extension_of(p@) is None,
        },
{
    match std::path::Path::new(p).extension() {
        Some(ext) => match ext.to_str() {
            Some(s) => Some(s.to_owned()),
            None => None,
        },
        None => None,
    }
}

/// Relies on `dunce::canonicalize`: the canonical absolute form of an
/// existing path, without Windows UNC prefixes. The answer depends on the
/// disk; a result that is not valid Unicode is reported as an error.
#[verifier::external_body]
fn canonicalize_raw(p: &str) -> Result<String, String> {
    match dunce::canonicalize(std::path::Path::new(p)) {
        Ok(canonical) => match canonical.to_str() {
            Some(s) => Ok(s.to_owned()),
            None => Err(String::from("canonical path is not valid Unicode")),
        },
        Err(e) => Err(e.to_string()),
    }
}

/// Canonicalize a path. The result comes from the file system; a
/// failure is returned as an I/O error of unknown kind carrying the
/// underlying text.
pub fn canonicalize_path(path: &str) -> (r: Result<String, Error>)
    ensures
        r matches Err(e) ==> (e matches Error::IO { kind, message } && kind == IoKind::Unknown),
{
    match canonicalize_raw(path) {
        Ok(canonical) => Ok(canonical),
        Err(message) => Err(Error::IO { kind: IoKind::Unknown, message }),
    }
}

/// A base directory and a further path, joined with a single separator.
pub open spec fn join_spec(base: Seq<char>, rel: Seq<char>) -> Seq<char> {
    if base.len() > 0 && base.last() == '/' {
        base + rel
    } else {
        base + seq!['/'] + rel
    }
}

/// Join a relative path onto a base directory with a single separator.
pub fn join_path(base: &str, rel: &str) -> (r: String)
    ensures
        r@ == join_spec(base@, rel@),
{
    let len = base.unicode_len();
    let mut out = base.to_owned();
    if !(len > 0 && base.get_char(len - 1) == '/') {
        push_char(&mut out, '/');
    }
    out.append(rel);
    out
}

/// Resolve a path against a base directory: an absolute path stands
/// alone, a relative one is joined onto the base; either is then
/// canonicalized, and a path the file system cannot resolve is
/// reported as an error.
pub fn resolve_path(path: &str, base: &str) -> (r: Result<String, Error>)
    ensures
        r matches Err(e) ==> (e matches Error::IO { kind, message } && kind == IoKind::Unknown),
{
    if path_is_absolute(path) {
        canonicalize_path(path)
    } else {
        let joined = join_path(base, path);
        canonicalize_path(joined.as_str())
    }
}

/// Compare two paths for equality. Paths on this platform are compared
/// case-sensitively, character for character.
pub fn paths_equal(a: &str, b: &str) -> (r: bool)
    ensures
        r == (a@ == b@),
{
    crate::text::str_eq(a, b)
}

/// Normalize path separators: every backslash becomes a forward slash.
pub fn normalize_separators(path: &str) -> (r: String)
    ensures
        r@.len() == path@.len(),
        forall|i: int|
            0 <= i < path@.len() ==> r@[i] == (if path@[i] == '\\' {
                '/'
            } else {
                path@[i]
            }),
{
    let len = path.unicode_len();
    let mut out = String::new();
    let mut i: usize = 0;
    while i < len
        invariant
            i <= len,
            len == path@.len(),
            out@.len() == i,
            forall|k: int|
                0 <= k < i ==> out@[k] == (if path@[k] == '\\' {
                    '/'
                } else {
                    path@[k]
                }),
        decreases len - i,
    {
        let c = path.get_char(i);
        if c == '\\' {
            push_char(&mut out, '/');
        } else {
            push_char(&mut out, c);
        }
        i = i + 1;
    }
    out
}

/// Check if a path is an existing directory. The answer comes from the
/// file system.
pub fn is_valid_directory(path: &str) -> bool {
    path_exists(path) && path_is_dir(path)
}

/// Check if a path is an existing regular file. The answer comes from
/// the file system.
pub fn is_valid_file(path: &str) -> bool {
    path_exists(path) && path_is_file(path)
}

/// The parent directory of a path, or `None` at a root.
pub fn get_parent(path: &str) -> (r: Option<String>)
    ensures
        match r {
            Some(s) => parent_of(path@) == Some(s@),
            None => parent_of(path@) is None,
        },
{
    path_parent(path)
}

} // verus!
