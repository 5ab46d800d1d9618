//! The argument of the macro: the source text of one expression, which has
//! to be a string literal.
//!
//! The text is read by the parser of `syn`, which descends into nested
//! expressions and types by recursion: each level of nesting takes stack, and
//! text that nests deep enough exhausts it. A level of nesting takes at least
//! one token, and a token at least one character that is no blank. A string
//! literal at the front of the text, plain or raw, is one token, whatever its
//! length. So the parser is only given text that holds few characters besides
//! such a literal and blanks, and other text is rejected unread.

use vstd::prelude::*;
use crate::error::{text_outcome, EmbedError, Failure};

verus! {

/// What the source text of an argument turned out to be.
#[derive(Debug, Clone, PartialEq, Eq)]
pub enum Argument {
    /// A string literal, with the text that it denotes.
    StringLiteral(String),
    /// Anything else: another literal, another expression, or no expression.
    Other,
}

/// An [`Argument`] with its text read as a sequence of characters.
pub enum ArgumentView {
    StringLiteral(Seq<char>),
    Other,
}

impl View for Argument {
    type V = ArgumentView;

    open spec fn view(&self) -> ArgumentView {
        match *self {
            Argument::StringLiteral(text) => ArgumentView::StringLiteral(text@),
            Argument::Other => ArgumentView::Other,
        }
    }
}

/// The most characters, blanks aside, that the text given to the parser may
/// hold outside a string literal at its front.
///
/// The parser cannot nest deeper than that many levels. On a thread with a
/// stack of two mebibytes, which a thread of Rust has by default, it was
/// measured to return from text three times as long, for each kind of
/// nesting that was tried; a smaller stack carries less.
pub const EXPOSED_LIMIT: usize = 32;

/// The most hashes that a raw string literal may have on either side.
pub const HASHES_LIMIT: usize = 255;

/// Whether a character is a blank: a space, a tabulator, a line feed or a
/// carriage return. Blanks make no token.
pub open spec fn is_blank(c: char) -> bool {
    c == ' ' || c == '\t' || c == '\n' || c == '\r'
}

/// The place of the first character from `from` on that is no blank, or the
/// end of the text.
pub open spec fn lead(text: Seq<char>, from: int) -> int
    decreases text.len() - from,
{
    if 0 <= from < text.len() && is_blank(text[from]) {
        lead(text, from + 1)
    } else {
        from
    }
}

/// The number of hashes that stand in a row from `from` on.
pub open spec fn hashes(text: Seq<char>, from: int) -> nat
    decreases text.len() - from,
{
    if 0 <= from < text.len() && text[from] == '#' {
        1 + hashes(text, from + 1)
    } else {
        0
    }
}

/// The number of characters from `from` on that are no blanks.
pub open spec fn visible(text: Seq<char>, from: int) -> nat
    decreases text.len() - from,
{
    if from < 0 || from >= text.len() {
        0
    } else if is_blank(text[from]) {
        visible(text, from + 1)
    } else {
        1 + visible(text, from + 1)
    }
}

/// Where the plain string literal ends whose content goes on at `from`: the
/// place after the first quote that no backslash stands before, or the end of
/// the text where there is no such quote. A backslash takes the character
/// that follows it along.
pub open spec fn literal_end(text: Seq<char>, from: int) -> int
    decreases text.len() - from,
{
    if from < 0 || from >= text.len() {
        text.len() as int
    } else if text[from] == '"' {
        from + 1
    } else if text[from] == '\\' && from + 1 < text.len() {
        literal_end(text, from + 2)
    } else if text[from] == '\\' {
        text.len() as int
    } else {
        literal_end(text, from + 1)
    }
}

/// Whether `count` hashes stand in a row at `at`.
pub open spec fn closes_raw(text: Seq<char>, at: int, count: int) -> bool {
    at + count <= text.len() && forall|offset: int|
        0 <= offset < count ==> #[trigger] text[at + offset] == '#'
}

/// Where the raw string literal ends whose content goes on at `from` and
/// which has `count` hashes on either side: the place after the first quote
/// that is followed by as many hashes, or the end of the text where there is
/// no such quote.
pub open spec fn raw_end(text: Seq<char>, from: int, count: int) -> int
    decreases text.len() - from,
{
    if from < 0 || from >= text.len() {
        text.len() as int
    } else if text[from] == '"' && closes_raw(text, from + 1, count) {
        from + 1 + count
    } else {
        raw_end(text, from + 1, count)
    }
}

/// Where the string literal ends that stands at the front of the text, after
/// blanks: a plain one, which begins with a quote, or a raw one, which
/// begins with `r`, hashes and a quote. There is none where the text begins
/// otherwise.
pub open spec fn front_literal_end(text: Seq<char>) -> Option<int> {
    let start = lead(text, 0);
    if start < text.len() && text[start] == '"' {
        Some(literal_end(text, start + 1))
    } else if start < text.len() && text[start] == 'r' {
        let count = hashes(text, start + 1);
        let quote = start + 1 + count;
        if count <= HASHES_LIMIT && quote < text.len() && text[quote] == '"' {
            Some(raw_end(text, quote + 1, count as int))
        } else {
            None
        }
    } else {
        None
    }
}

/// The number of characters of `text` that stand outside a string literal at
/// its front, blanks aside: those that follow the literal where the text
/// begins with one, and all of the text where it does not.
pub open spec fn exposed(text: Seq<char>) -> nat {
    match front_literal_end(text) {
        Some(end) => visible(text, end),
        None => visible(text, 0),
    }
}

/// The characters of a text, one by one.
fn characters(source: &str) -> (text: Vec<char>)
    ensures
        text@ == source@,
{
    let mut text: Vec<char> = Vec::new();
    for c in chars: source.chars()
        invariant
            chars.seq() == source@,
            text@ == source@.take(chars.index() as int),
    {
        text.push(c);
        assert(text@ =~= source@.take(chars.index() + 1));
    }
    assert(source@.take(source@.len() as int) =~= source@);
    text
}

/// Tells whether a character is a blank.
fn blank(c: char) -> (is: bool)
    ensures
        is == is_blank(c),
{
    c == ' ' || c == '\t' || c == '\n' || c == '\r'
}

/// Finds the first character from `from` on that is no blank.
fn skip_blanks(text: &Vec<char>, from: usize) -> (to: usize)
    requires
        from <= text.len(),
    ensures
        to == lead(text@, from as int),
        from <= to <= text.len(),
{
    let mut to = from;
    while to < text.len() && blank(text[to])
        invariant
            from <= to <= text.len(),
            lead(text@, from as int) == lead(text@, to as int),
        decreases text.len() - to,
    {
        to += 1;
    }
    to
}

/// Counts the hashes that stand in a row from `from` on.
fn count_hashes(text: &Vec<char>, from: usize) -> (count: usize)
    requires
        from <= text.len(),
    ensures
        count == hashes(text@, from as int),
        from + count <= text.len(),
{
    let mut count: usize = 0;
    while from + count < text.len() && text[from + count] == '#'
        invariant
            from + count <= text.len(),
            hashes(text@, from as int) == count + hashes(text@, from + count),
        decreases text.len() - from - count,
    {
        count += 1;
    }
    count
}

/// Finds the end of the plain literal whose content goes on at `from`.
fn plain_end(text: &Vec<char>, from: usize) -> (end: usize)
    requires
        from <= text.len(),
    ensures
        end == literal_end(text@, from as int),
        end <= text.len(),
{
    let mut at = from;
    while at < text.len()
        invariant
            at <= text.len(),
            literal_end(text@, from as int) == literal_end(text@, at as int),
        decreases text.len() - at,
    {
        if text[at] == '"' {
            return at + 1;
        } else if text[at] == '\\' {
            if at + 1 < text.len() {
                at += 2;
            } else {
                return text.len();
            }
        } else {
            at += 1;
        }
    }
    at
}

/// Tells whether `count` hashes stand in a row at `at`.
fn hashes_follow(text: &Vec<char>, at: usize, count: usize) -> (follow: bool)
    requires
        at <= text.len(),
        count <= HASHES_LIMIT,
    ensures
        follow == closes_raw(text@, at as int, count as int),
{
    if count > text.len() - at {
        return false;
    }
    let mut seen: usize = 0;
    while seen < count
        invariant
            seen <= count,
            at + count <= text.len(),
            forall|offset: int| 0 <= offset < seen ==> #[trigger] text@[at + offset] == '#',
        decreases count - seen,
    {
        if text[at + seen] != '#' {
            return false;
        }
        seen += 1;
    }
    true
}

/// Finds the end of the raw literal whose content goes on at `from`, with
/// `count` hashes on either side.
fn raw_literal_end(text: &Vec<char>, from: usize, count: usize) -> (end: usize)
    requires
        from <= text.len(),
        count <= HASHES_LIMIT,
    ensures
        end == raw_end(text@, from as int, count as int),
        end <= text.len(),
{
    let mut at = from;
    while at < text.len()
        invariant
            at <= text.len(),
            count <= HASHES_LIMIT,
            raw_end(text@, from as int, count as int) == raw_end(text@, at as int, count as int),
        decreases text.len() - at,
    {
        if text[at] == '"' && hashes_follow(text, at + 1, count) {
            return at + 1 + count;
        }
        at += 1;
    }
    at
}

/// Tells whether no more than `limit` characters from `from` on are no
/// blanks.
fn visible_within(text: &Vec<char>, from: usize, limit: usize) -> (within: bool)
    requires
        from <= text.len(),
    ensures
        within == (visible(text@, from as int) <= limit),
{
    let mut at = from;
    let mut count: usize = 0;
    while at < text.len()
        invariant
            from <= at <= text.len(),
            count <= limit,
            visible(text@, from as int) == count + visible(text@, at as int),
        decreases text.len() - at,
    {
        if !blank(text[at]) {
            if count == limit {
                return false;
            }
            count += 1;
        }
        at += 1;
    }
    true
}

/// Tells whether `source` holds few enough characters outside a string
/// literal at its front to be given to the parser.
pub fn within_limit(source: &str) -> (within: bool)
    ensures
        within == (exposed(source@) <= EXPOSED_LIMIT),
{
    let text = characters(source);
    let start = skip_blanks(&text, 0);
    let mut counted_from: usize = 0;
    if start < text.len() && text[start] == '"' {
        counted_from = plain_end(&text, start + 1);
    } else if start < text.len() && text[start] == 'r' {
        let count = count_hashes(&text, start + 1);
        let quote = start + 1 + count;
        if count <= HASHES_LIMIT && quote < text.len() && text[quote] == '"' {
            counted_from = raw_literal_end(&text, quote + 1, count);
        }
    }
    visible_within(&text, counted_from, EXPOSED_LIMIT)
}

/// What the parser of `syn` makes of `source`, built as this library builds
/// it: without the feature `proc-macro`, so that in every process the tokens
/// come from the lexer of `proc-macro2` itself. A build that switches that
/// feature of `proc-macro2` on brings the lexer of the compiler back inside a
/// procedural macro, and this says nothing of it.
pub uninterp spec fn argument_shape(source: Seq<char>) -> ArgumentView;

/// Parses `source` with `syn::parse_str::<syn::Expr>` and reports whether a
/// string literal came back, with the text that `syn::LitStr::value` decodes
/// from it.
///
/// Nothing is proved of the parser. The contract only names its answer: the
/// same source text always has the same shape. The parser recurses once or
/// more for each level of nesting and has no limit of its own, so the text
/// has to be within [`EXPOSED_LIMIT`]: a string literal at the front, plain
/// or raw, is one token to the lexer, which does not recurse and which ends
/// the literal where [`front_literal_end`] says or else rejects the text; and
/// what follows the literal can nest no deeper than it has characters that
/// are no blanks.
#[verifier::external_body]
fn parse_argument(source: &str) -> (argument: Argument)
    requires
        exposed(source@) <= EXPOSED_LIMIT,
    ensures
        argument@ == argument_shape(source@),
{
    match syn::parse_str::<syn::Expr>(source) {
        Ok(syn::Expr::Lit(literal)) => match literal.lit {
            syn::Lit::Str(text) => Argument::StringLiteral(text.value()),
            _ => Argument::Other,
        },
        _ => Argument::Other,
    }
}

/// What reading the source text of an argument comes to: the shape that the
/// parser gives it where the text is within the limit, and no string literal
/// where it is not.
pub open spec fn argument_read(source: Seq<char>) -> ArgumentView {
    if exposed(source) <= EXPOSED_LIMIT {
        argument_shape(source)
    } else {
        ArgumentView::Other
    }
}

/// The path that an argument of a given shape asks for.
pub open spec fn requested_path(argument: ArgumentView) -> Result<Seq<char>, Failure> {
    match argument {
        ArgumentView::StringLiteral(text) => Ok(text),
        ArgumentView::Other => Err(Failure::ArgumentShape),
    }
}

/// Accepts a string literal as the path to embed, and rejects every other
/// shape of argument.
pub fn path_argument(argument: Argument) -> (result: Result<String, EmbedError>)
    ensures
        text_outcome(result) == requested_path(argument@),
{
    match argument {
        Argument::StringLiteral(text) => Ok(text),
        Argument::Other => Err(EmbedError::ArgumentShape),
    }
}

/// Reads the source text of an argument: the path that it denotes if it is a
/// string literal, and an error of shape otherwise.
///
/// A string literal, plain or raw, with nothing but blanks before and after
/// it, is read whatever its length. Text that holds more than
/// [`EXPOSED_LIMIT`] other characters is rejected without being parsed: the
/// parser needs stack for each of them. So a literal is not read where that
/// much else stands beside it, be it comments, attributes or a suffix.
pub fn read_argument(source: &str) -> (result: Result<String, EmbedError>)
    ensures
        text_outcome(result) == requested_path(argument_read(source@)),
{
    if within_limit(source) {
        path_argument(parse_argument(source))
    } else {
        Err(EmbedError::ArgumentShape)
    }
}

} // verus!
