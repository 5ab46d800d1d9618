//! The ways in which embedding a directory can fail.

use vstd::prelude::*;
use crate::literal::{literal_text, push_literal};

verus! {

/// Why a directory could not be embedded.
///
/// Every failure stops the build of the place where the directory was asked
/// for; none yields a block of code.
#[derive(Debug, Clone, PartialEq, Eq)]
#[allow(inconsistent_fields)]
pub enum EmbedError {
    /// The argument is not a single string literal.
    ArgumentShape,
    /// The path is relative and no build root is known to resolve it against.
    Configuration,
    /// The resolved path does not exist or is no directory.
    NotFound { path: String },
    /// The directory or one of its entries could not be read (`entry` is
    /// `None`), or the type of the entry named could not be determined.
    Io { path: String, entry: Option<String> },
    /// The name of a regular file is not text; `entry` renders it as well as
    /// text can.
    Encoding { path: String, entry: String },
}

/// An [`EmbedError`] with its strings read as sequences of characters.
#[allow(inconsistent_fields)]
pub enum Failure {
    ArgumentShape,
    Configuration,
    NotFound { path: Seq<char> },
    Io { path: Seq<char>, entry: Option<Seq<char>> },
    Encoding { path: Seq<char>, entry: Seq<char> },
}

impl View for EmbedError {
    type V = Failure;

    open spec fn view(&self) -> Failure {
        match *self {
            EmbedError::ArgumentShape => Failure::ArgumentShape,
            EmbedError::Configuration => Failure::Configuration,
            EmbedError::NotFound { path } => Failure::NotFound { path: path@ },
            EmbedError::Io { path, entry } => Failure::Io {
                path: path@,
                entry: match entry {
                    Some(name) => Some(name@),
                    None => None,
                },
            },
            EmbedError::Encoding { path, entry } => Failure::Encoding { path: path@, entry: entry@ },
        }
    }
}

/// What is said of an argument that is no string literal.
pub const SAYS_ARGUMENT_SHAPE: &'static str = "expected a string literal";

/// What is said where a relative path meets no build root.
pub const SAYS_CONFIGURATION: &'static str = "the build root is not set";

/// What follows the path that leads to no directory.
pub const SAYS_NOT_FOUND: &'static str = " does not exist or is not a directory!";

/// What precedes the directory that could not be listed.
pub const SAYS_UNREADABLE: &'static str = "couldn't read the contents of the directory ";

/// What precedes the entry whose type could not be determined.
pub const SAYS_UNKNOWN_TYPE: &'static str = "couldn't determine the type of ";

/// What precedes the entry whose name is not text.
pub const SAYS_ENCODING: &'static str = "the name is not valid text: ";

/// What stands between an entry and its directory.
pub const SAYS_IN_DIRECTORY: &'static str = " in the directory ";

/// The diagnostic for a failure. Paths and names are written as string
/// literals, so that every character of them can be told.
pub open spec fn message_text(failure: Failure) -> Seq<char> {
    match failure {
        Failure::ArgumentShape => SAYS_ARGUMENT_SHAPE@,
        Failure::Configuration => SAYS_CONFIGURATION@,
        Failure::NotFound { path } => literal_text(path) + SAYS_NOT_FOUND@,
        Failure::Io { path, entry: None } => SAYS_UNREADABLE@ + literal_text(path),
        Failure::Io { path, entry: Some(name) } => SAYS_UNKNOWN_TYPE@ + literal_text(name)
            + SAYS_IN_DIRECTORY@ + literal_text(path),
        Failure::Encoding { path, entry } => SAYS_ENCODING@ + literal_text(entry)
            + SAYS_IN_DIRECTORY@ + literal_text(path),
    }
}

impl EmbedError {
    /// Writes the diagnostic for this failure: what went wrong, with the
    /// resolved path and the entry where there is one.
    pub fn message(&self) -> (text: String)
        ensures
            text@ == message_text(self@),
    {
        let mut text = String::new();
        match self {
            EmbedError::ArgumentShape => {
                text.append(SAYS_ARGUMENT_SHAPE);
            },
            EmbedError::Configuration => {
                text.append(SAYS_CONFIGURATION);
            },
            EmbedError::NotFound { path } => {
                push_literal(&mut text, path.as_str());
                text.append(SAYS_NOT_FOUND);
            },
            EmbedError::Io { path, entry: None } => {
                text.append(SAYS_UNREADABLE);
                push_literal(&mut text, path.as_str());
            },
            EmbedError::Io { path, entry: Some(name) } => {
                text.append(SAYS_UNKNOWN_TYPE);
                push_literal(&mut text, name.as_str());
                text.append(SAYS_IN_DIRECTORY);
                push_literal(&mut text, path.as_str());
            },
            EmbedError::Encoding { path, entry } => {
                text.append(SAYS_ENCODING);
                push_literal(&mut text, entry.as_str());
                text.append(SAYS_IN_DIRECTORY);
                push_literal(&mut text, path.as_str());
            },
        }
        text
    }
}

/// A result that carries text, read as a sequence of characters.
pub open spec fn text_outcome(result: Result<String, EmbedError>) -> Result<Seq<char>, Failure> {
    match result {
        Ok(text) => Ok(text@),
        Err(error) => Err(error@),
    }
}

} // verus!
