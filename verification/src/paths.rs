//! Path resolution: a path whose first character is the home marker `~` is
//! rewritten against the home directory handed in by the caller, and a probe
//! asks whether the base directory already exists on disk.

use std::path::Path;
use vstd::prelude::*;
use vstd::string::StrSliceExecFns;
use vstd::string::StringExecFns;

verus! {

/// Why a path could not be resolved.
#[derive(Debug, PartialEq, Eq, Structural, Clone, Copy)]
pub enum PathError {
    /// No home directory value was available, so no path can be
    /// resolved: resolution is always attempted, marker or not.
    MissingHomeDirectory,
}

/// `path` with a leading home marker replaced by `home`; a path that does
/// not start with the marker is kept unchanged.
pub open spec fn spec_resolve(path: Seq<char>, home: Seq<char>) -> Seq<char> {
    if path.len() > 0 && path[0] == '~' {
        home + path.subrange(1, path.len() as int)
    } else {
        path
    }
}

/// Resolves `path` against the home directory, when one is available.
/// Resolution is attempted for every path, so a missing home directory is
/// an error even when `path` carries no marker.
pub fn resolve_path(path: &str, home: Option<&str>) -> (r: Result<String, PathError>)
    ensures
        match r {
            Ok(s) => home matches Some(h) && s@ == spec_resolve(path@, h@),
            Err(e) => home is None && e == PathError::MissingHomeDirectory,
        },
{
    match home {
        None => Err(PathError::MissingHomeDirectory),
        Some(h) => {
            let n = path.unicode_len();
            if n > 0 && path.get_char(0) == '~' {
                let rest = path.substring_char(1, n);
                let mut s = h.to_owned();
                s.append(rest);
                Ok(s)
            } else {
                Ok(path.to_owned())
            }
        },
    }
}

/// Relies on std::path::Path::exists: whether something on disk answers to
/// `path`. The result depends on the filesystem, so nothing is promised of
/// it.
#[verifier::external_body]
fn path_exists(path: &str) -> bool {
    Path::new(path).exists()
}

/// Relies on std::path::Path::is_dir: whether `path` names a directory on
/// disk. The result depends on the filesystem, so nothing is promised of
/// it.
#[verifier::external_body]
fn path_is_dir(path: &str) -> bool {
    Path::new(path).is_dir()
}

/// Whether `path` already exists on disk as a directory. The answer comes
/// from the filesystem, so no contract pins it down.
pub fn check_env_dir(path: &str) -> bool {
    let exists = path_exists(path);
    let is_dir = path_is_dir(path);
    exists && is_dir
}

} // verus!
