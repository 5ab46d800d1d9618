//! What an emitted block says.
//!
//! A block is read back as the files that it inserts, in order. The reading
//! takes the opening of the block, then insertions for as long as they come,
//! each with a literal for the name and a literal for the path, and then the
//! closing. Every block that is emitted reads back as the files it was
//! emitted for, so its text settles the map that it builds.

use vstd::prelude::*;
use crate::embedded::embedded_map;
use crate::emit::{
    block_text, statement_text, statements_text, BLOCK_CLOSING, BLOCK_OPENING, INSERT_CLOSING,
    INSERT_MIDDLE, INSERT_OPENING,
};
use crate::listing::FileView;
use crate::literal::{law_literal_reads_back, literal_text, read_literal};

verus! {

/// Whether `text` begins with `prefix`.
pub open spec fn begins_with(text: Seq<char>, prefix: Seq<char>) -> bool {
    prefix.len() <= text.len() && text.take(prefix.len() as int) == prefix
}

/// Reads a fixed piece of text off the front of `text`: what follows it.
pub open spec fn after(text: Seq<char>, prefix: Seq<char>) -> Option<Seq<char>> {
    if begins_with(text, prefix) {
        Some(text.skip(prefix.len() as int))
    } else {
        None
    }
}

/// Reads a string literal off the front of `text`: the text that it denotes
/// and what follows it.
pub open spec fn after_literal(text: Seq<char>) -> Option<(Seq<char>, Seq<char>)> {
    match read_literal(text) {
        Some((value, used)) if 0 < used <= text.len() => Some((value, text.skip(used))),
        _ => None,
    }
}

/// Reads one insertion off the front of `text`: the file that it inserts and
/// what follows it.
pub open spec fn after_insertion(text: Seq<char>) -> Option<(FileView, Seq<char>)> {
    match after(text, INSERT_OPENING@) {
        Some(at_name) => match after_literal(at_name) {
            Some((name, at_middle)) => match after(at_middle, INSERT_MIDDLE@) {
                Some(at_path) => match after_literal(at_path) {
                    Some((path, at_closing)) => match after(at_closing, INSERT_CLOSING@) {
                        Some(rest) => Some((FileView { name, path }, rest)),
                        None => None,
                    },
                    None => None,
                },
                None => None,
            },
            None => None,
        },
        None => None,
    }
}

/// Reads insertions up to the closing of the block: the files inserted, in
/// order.
pub open spec fn read_insertions(text: Seq<char>) -> Option<Seq<FileView>>
    decreases text.len(),
{
    if text == BLOCK_CLOSING@ {
        Some(Seq::empty())
    } else {
        match after_insertion(text) {
            Some((file, rest)) if rest.len() < text.len() => match read_insertions(rest) {
                Some(files) => Some(seq![file] + files),
                None => None,
            },
            _ => None,
        }
    }
}

/// Reads a block: the files that it inserts, in order.
pub open spec fn read_block(code: Seq<char>) -> Option<Seq<FileView>> {
    match after(code, BLOCK_OPENING@) {
        Some(insertions) => read_insertions(insertions),
        None => None,
    }
}

/// The map that a block builds, where `stored` holds the bytes at each path.
pub open spec fn block_map(code: Seq<char>, stored: Map<Seq<char>, Seq<u8>>) -> Option<
    Map<Seq<char>, Seq<u8>>,
> {
    match read_block(code) {
        Some(files) => Some(embedded_map(files, stored)),
        None => None,
    }
}

/// A piece of text is read off the front of what begins with it.
proof fn lemma_after(prefix: Seq<char>, rest: Seq<char>)
    ensures
        after(prefix + rest, prefix) == Some(rest),
{
    assert((prefix + rest).take(prefix.len() as int) =~= prefix);
    assert((prefix + rest).skip(prefix.len() as int) =~= rest);
}

/// A literal is read off the front of what begins with it.
proof fn lemma_after_literal(text: Seq<char>, rest: Seq<char>)
    ensures
        after_literal(literal_text(text) + rest) == Some((text, rest)),
{
    law_literal_reads_back(text, rest);
    assert((literal_text(text) + rest).skip(literal_text(text).len() as int) =~= rest);
}

/// An insertion is read off the front of what begins with it.
proof fn lemma_after_insertion(file: FileView, rest: Seq<char>)
    ensures
        after_insertion(statement_text(file) + rest) == Some((file, rest)),
{
    let at_closing = INSERT_CLOSING@ + rest;
    let at_path = literal_text(file.path) + at_closing;
    let at_middle = INSERT_MIDDLE@ + at_path;
    let at_name = literal_text(file.name) + at_middle;
    assert(statement_text(file) + rest =~= INSERT_OPENING@ + at_name);
    lemma_after(INSERT_OPENING@, at_name);
    lemma_after_literal(file.name, at_middle);
    lemma_after(INSERT_MIDDLE@, at_path);
    lemma_after_literal(file.path, at_closing);
    lemma_after(INSERT_CLOSING@, rest);
}

/// The insertions of some files begin with the insertion of the first.
proof fn lemma_statements_front(files: Seq<FileView>)
    requires
        files.len() > 0,
    ensures
        statements_text(files) == statement_text(files[0]) + statements_text(files.skip(1)),
    decreases files.len(),
{
    if files.len() == 1 {
        assert(files.drop_last() =~= Seq::<FileView>::empty());
        assert(files.skip(1) =~= Seq::<FileView>::empty());
        assert(statements_text(files) =~= statement_text(files[0]) + statements_text(
            files.skip(1),
        ));
    } else {
        lemma_statements_front(files.drop_last());
        assert(files.drop_last().skip(1) =~= files.skip(1).drop_last());
        assert(statements_text(files) =~= statement_text(files[0]) + statements_text(
            files.skip(1),
        ));
    }
}

/// What begins with an insertion is not the closing of the block.
proof fn lemma_insertion_is_no_closing(file: FileView, rest: Seq<char>)
    ensures
        statement_text(file) + rest != BLOCK_CLOSING@,
        statement_text(file).len() > 0,
{
    reveal_strlit("map }");
    reveal_strlit("map.insert(");
    let text = statement_text(file) + rest;
    assert(text[3] == INSERT_OPENING@[3]);
}

/// The insertions of some files, with the closing of the block, are read
/// back as those files.
proof fn lemma_insertions_read_back(files: Seq<FileView>)
    ensures
        read_insertions(statements_text(files) + BLOCK_CLOSING@) == Some(files),
    decreases files.len(),
{
    let text = statements_text(files) + BLOCK_CLOSING@;
    if files.len() == 0 {
        assert(text =~= BLOCK_CLOSING@);
        assert(files =~= Seq::<FileView>::empty());
    } else {
        let first = files[0];
        let later = files.skip(1);
        let rest = statements_text(later) + BLOCK_CLOSING@;
        lemma_statements_front(files);
        assert(text =~= statement_text(first) + rest);
        lemma_insertion_is_no_closing(first, rest);
        lemma_after_insertion(first, rest);
        lemma_insertions_read_back(later);
        assert(after_insertion(text) == Some((first, rest)));
        assert(seq![first] + later =~= files);
    }
}

/// A block reads back as the files that it was emitted for: it inserts each
/// of them, in order, under its name and from its path, and nothing else.
pub proof fn law_block_reads_back(files: Seq<FileView>)
    ensures
        read_block(block_text(files)) == Some(files),
{
    let insertions = statements_text(files) + BLOCK_CLOSING@;
    assert(block_text(files) =~= BLOCK_OPENING@ + insertions);
    lemma_after(BLOCK_OPENING@, insertions);
    lemma_insertions_read_back(files);
}

} // verus!
