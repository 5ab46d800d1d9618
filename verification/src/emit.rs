//! The block of code that builds the map.
//!
//! The block is an expression. It makes an empty hash map, inserts one pair
//! for each embedded file, in order, and yields the map. The key of a pair is
//! the file's name; its value is a slice of the bytes that `include_bytes!`
//! reads from the file's path when the block is compiled.

use vstd::prelude::*;
use crate::listing::{file_views, FileEntry, FileView};
use crate::literal::{literal_text, push_literal};

verus! {

/// What every block begins with.
pub const BLOCK_OPENING: &'static str = "{ let mut map = std::collections::HashMap::new(); ";

/// What every block ends with.
pub const BLOCK_CLOSING: &'static str = "map }";

/// What an insertion begins with, up to the key.
pub const INSERT_OPENING: &'static str = "map.insert(";

/// What stands between the key of an insertion and the path.
pub const INSERT_MIDDLE: &'static str = ", &include_bytes!(";

/// What an insertion ends with, after the path.
pub const INSERT_CLOSING: &'static str = ")[..]); ";

/// The statement that inserts one file.
pub open spec fn statement_text(file: FileView) -> Seq<char> {
    INSERT_OPENING@ + literal_text(file.name) + INSERT_MIDDLE@ + literal_text(file.path)
        + INSERT_CLOSING@
}

/// The statements that insert the given files, one after the other.
pub open spec fn statements_text(files: Seq<FileView>) -> Seq<char>
    decreases files.len(),
{
    if files.len() == 0 {
        Seq::empty()
    } else {
        statements_text(files.drop_last()) + statement_text(files.last())
    }
}

/// The whole block for the given files.
pub open spec fn block_text(files: Seq<FileView>) -> Seq<char> {
    BLOCK_OPENING@ + statements_text(files) + BLOCK_CLOSING@
}

/// Appends to `code` the statement that inserts `file`.
fn push_statement(code: &mut String, file: &FileEntry)
    ensures
        final(code)@ == old(code)@ + statement_text(file@),
{
    code.append(INSERT_OPENING);
    push_literal(code, file.name.as_str());
    code.append(INSERT_MIDDLE);
    push_literal(code, file.path.as_str());
    code.append(INSERT_CLOSING);
}

/// Writes the block that embeds `files`.
pub fn emit(files: &Vec<FileEntry>) -> (code: String)
    ensures
        code@ == block_text(file_views(files@)),
{
    let ghost views = file_views(files@);
    let mut code = String::new();
    code.append(BLOCK_OPENING);
    let mut index: usize = 0;
    while index < files.len()
        invariant
            index <= files.len(),
            views == file_views(files@),
            code@ == BLOCK_OPENING@ + statements_text(views.take(index as int)),
        decreases files.len() - index,
    {
        assert(views.take(index + 1).drop_last() =~= views.take(index as int));
        push_statement(&mut code, &files[index]);
        index += 1;
    }
    assert(views.take(index as int) =~= views);
    code.append(BLOCK_CLOSING);
    code
}

} // verus!
