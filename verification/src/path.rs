//! Paths as text.
//!
//! One convention is known here, the POSIX one: components are separated by
//! `/`, and a path is absolute when it begins with `/`. For a host with
//! another convention, [`resolve_directory_by`] takes the host's answers in
//! place of the library's own.

use vstd::prelude::*;
use crate::error::{text_outcome, EmbedError, Failure};

verus! {

/// Whether `path` names a place independently of any base directory.
pub open spec fn is_absolute_path(path: Seq<char>) -> bool {
    path.len() > 0 && path[0] == '/'
}

/// The path that `path` denotes when it is read from inside `base`.
///
/// An absolute `path` stands for itself. Otherwise it is appended to `base`,
/// with one separator in between unless `base` is empty or already ends in one.
pub open spec fn joined(base: Seq<char>, path: Seq<char>) -> Seq<char> {
    if is_absolute_path(path) {
        path
    } else if base.len() > 0 && base.last() != '/' {
        base + seq!['/'] + path
    } else {
        base + path
    }
}

/// Tells whether `path` is absolute.
pub fn is_absolute(path: &str) -> (absolute: bool)
    ensures
        absolute == is_absolute_path(path@),
{
    !path.is_empty() && path.get_char(0) == '/'
}

/// Adjoins `path` to `base`.
pub fn join(base: &str, path: &str) -> (out: String)
    ensures
        out@ == joined(base@, path@),
{
    if is_absolute(path) {
        return path.to_owned();
    }
    let mut out = base.to_owned();
    let length: usize = base.unicode_len();
    if length > 0 && base.get_char(length - 1) != '/' {
        proof {
            reveal_strlit("/");
        }
        out.append("/");
    }
    out.append(path);
    out
}

/// A build root that may be absent, read as a sequence of characters.
pub open spec fn root_view(build_root: Option<&str>) -> Option<Seq<char>> {
    match build_root {
        Some(root) => Some(root@),
        None => None,
    }
}

/// The directory that `argument` asks for, given the build root if one is
/// known.
///
/// An absolute argument is the directory. A relative one is read from inside
/// the build root, and cannot be resolved where the root is absent or empty.
pub open spec fn resolved(argument: Seq<char>, build_root: Option<Seq<char>>) -> Result<
    Seq<char>,
    Failure,
> {
    if is_absolute_path(argument) {
        Ok(argument)
    } else {
        match build_root {
            Some(root) if root.len() > 0 => Ok(joined(root, argument)),
            _ => Err(Failure::Configuration),
        }
    }
}

/// The directory that `argument` asks for, given what the host makes of it:
/// whether the host takes the argument for absolute, and what the host joins
/// the build root and the argument to. An absolute argument is the directory;
/// a relative one is read from inside the build root as the host joined them,
/// and cannot be resolved where the root is absent or empty.
pub open spec fn resolved_by(
    argument: Seq<char>,
    build_root: Option<Seq<char>>,
    absolute: bool,
    joined: Seq<char>,
) -> Result<Seq<char>, Failure> {
    if absolute {
        Ok(argument)
    } else {
        match build_root {
            Some(root) if root.len() > 0 => Ok(joined),
            _ => Err(Failure::Configuration),
        }
    }
}

/// Resolves the path of the argument to the directory to embed, in the path
/// convention of the host.
///
/// The library knows no convention but the POSIX one, so the host's answers
/// are handed in: `absolute` says whether the host takes `argument` for an
/// absolute path, and `joined` is what the host joins the build root and
/// `argument` to. `joined` is not looked at where the argument is absolute
/// or where there is no build root to join onto.
pub fn resolve_directory_by(
    argument: &str,
    build_root: Option<&str>,
    absolute: bool,
    joined: &str,
) -> (result: Result<String, EmbedError>)
    ensures
        text_outcome(result) == resolved_by(
            argument@,
            root_view(build_root),
            absolute,
            joined@,
        ),
{
    if absolute {
        return Ok(argument.to_owned());
    }
    match build_root {
        Some(root) => {
            if root.is_empty() {
                Err(EmbedError::Configuration)
            } else {
                Ok(joined.to_owned())
            }
        },
        None => Err(EmbedError::Configuration),
    }
}

/// Resolves the path of the argument to the directory to embed, in the POSIX
/// convention.
pub fn resolve_directory(argument: &str, build_root: Option<&str>) -> (result: Result<
    String,
    EmbedError,
>)
    ensures
        text_outcome(result) == resolved(argument@, root_view(build_root)),
{
    if is_absolute(argument) {
        return Ok(argument.to_owned());
    }
    match build_root {
        Some(root) => {
            if root.is_empty() {
                Err(EmbedError::Configuration)
            } else {
                Ok(join(root, argument))
            }
        },
        None => Err(EmbedError::Configuration),
    }
}

} // verus!
