//! Embedding the files of a directory into a program at build time.
//!
//! Given the literal path of a directory, the library writes a block of code
//! that builds a map from the name of each regular file of the directory to
//! the bytes of that file. The directory is not searched recursively, and
//! entries that are no regular files are passed over.
//!
//! The library knows one path convention, the POSIX one: `/` separates
//! components, and a path is absolute when it begins with `/`. [`locate`]
//! and [`embed`] read the argument in it, so that a path of another
//! convention, such as one that begins with a drive letter, is taken for
//! relative and joined onto the build root. A host with another convention
//! hands its own answers in: it reads the argument with
//! [`argument::read_argument`], resolves it with
//! [`path::resolve_directory_by`], and reports each entry of the directory
//! with its path.
//!
//! The library reads neither environment variables nor the file system.
//! Embedding takes two steps, with a look at the file system in between that
//! is left to the caller. [`locate`] says which directory the argument asks
//! for. The caller probes that directory, and [`generate`] turns what the
//! probe found into the block. [`embed`] is both steps in one, for a caller
//! that holds the probe of the directory that [`locate`] names.

pub mod argument;
pub mod embedded;
pub mod emit;
pub mod error;
pub mod laws;
pub mod listing;
pub mod literal;
pub mod path;
pub mod reading;

use vstd::prelude::*;
use crate::argument::{argument_read, read_argument, requested_path, ArgumentView};
use crate::emit::{block_text, emit};
use crate::error::{text_outcome, EmbedError, Failure};
use crate::listing::{select_files, selection, DirectoryProbe, ProbeView};
use crate::path::{resolve_directory, resolved, root_view};

verus! {

/// The directory that an argument of a given shape asks for.
pub open spec fn located(argument: ArgumentView, build_root: Option<Seq<char>>) -> Result<
    Seq<char>,
    Failure,
> {
    match requested_path(argument) {
        Ok(path) => resolved(path, build_root),
        Err(failure) => Err(failure),
    }
}

/// The block for `directory`, given what a probe of it found.
///
/// A directory that is missing or cannot be listed yields no block, and
/// neither does a listing with a blocking entry. Otherwise the block embeds
/// the regular files of the listing.
pub open spec fn generated(directory: Seq<char>, probe: ProbeView) -> Result<Seq<char>, Failure> {
    match probe {
        ProbeView::Missing => Err(Failure::NotFound { path: directory }),
        ProbeView::Unreadable => Err(Failure::Io { path: directory, entry: None }),
        ProbeView::Listing(listing) => match selection(directory, listing) {
            Ok(files) => Ok(block_text(files)),
            Err(failure) => Err(failure),
        },
    }
}

/// The outcome of embedding: the block, or the first failure on the way.
pub open spec fn embedded(
    argument: ArgumentView,
    build_root: Option<Seq<char>>,
    probe: ProbeView,
) -> Result<Seq<char>, Failure> {
    match located(argument, build_root) {
        Ok(directory) => generated(directory, probe),
        Err(failure) => Err(failure),
    }
}

/// Finds the directory that the argument asks for.
///
/// `source` is the source text of the argument, and `build_root` the root of
/// the package that is being built, if the build told it. Both paths are read
/// in the POSIX convention, on every platform: the argument is absolute when
/// it begins with `/`, and is joined onto the build root with `/` otherwise.
/// For the convention of the host, see [`path::resolve_directory_by`].
pub fn locate(source: &str, build_root: Option<&str>) -> (result: Result<String, EmbedError>)
    ensures
        text_outcome(result) == located(argument_read(source@), root_view(build_root)),
{
    match read_argument(source) {
        Ok(path) => resolve_directory(path.as_str(), build_root),
        Err(error) => Err(error),
    }
}

/// Writes the block that embeds `directory`, from what a probe of it found.
///
/// Each file is read from the path that the probe gave for it. Where the
/// probe gave none, the name is joined onto `directory` in the POSIX
/// convention.
pub fn generate(directory: &str, probe: &DirectoryProbe) -> (result: Result<String, EmbedError>)
    ensures
        text_outcome(result) == generated(directory@, probe@),
{
    match probe {
        DirectoryProbe::Missing => Err(EmbedError::NotFound { path: directory.to_owned() }),
        DirectoryProbe::Unreadable => Err(
            EmbedError::Io { path: directory.to_owned(), entry: None },
        ),
        DirectoryProbe::Listing(listing) => match select_files(directory, listing) {
            Ok(files) => Ok(emit(&files)),
            Err(error) => Err(error),
        },
    }
}

/// Embeds the directory that the argument asks for.
///
/// `probe` is what was found at the directory that [`locate`] names for the
/// same `source` and `build_root`; it is not looked at where `locate` fails.
pub fn embed(source: &str, build_root: Option<&str>, probe: &DirectoryProbe) -> (result: Result<
    String,
    EmbedError,
>)
    ensures
        text_outcome(result) == embedded(argument_read(source@), root_view(build_root), probe@),
{
    match locate(source, build_root) {
        Ok(directory) => generate(directory.as_str(), probe),
        Err(error) => Err(error),
    }
}

} // verus!
