//! What holds of every embedding.
//!
//! A directory is described by its listing and by the bytes stored at each
//! path. The laws relate the two to the map that the generated block builds.

use vstd::prelude::*;
use crate::argument::{exposed, front_literal_end, lead, literal_end, ArgumentView};
use crate::{embedded, generated, located};
use crate::embedded::embedded_map;
use crate::emit::{block_text, BLOCK_CLOSING, BLOCK_OPENING};
use crate::error::Failure;
use crate::listing::{
    blocks, entry_path, file_of, first_blocking, is_regular, lemma_retained_push, retained,
    selection,
    EntryView, FileView, ProbeView,
};
use crate::literal::{
    all_hex, escaped, escaped_text, hex_digits, hex_value, is_plain, lemma_escaped_text_front,
    lemma_hex_digits_denote, literal_text,
};
use crate::path::{is_absolute_path, joined, resolved, resolved_by};
use crate::reading::{block_map, law_block_reads_back};

verus! {

/// The names of the regular files of a listing.
pub open spec fn regular_names(listing: Seq<EntryView>) -> Set<Seq<char>> {
    Set::new(
        |name: Seq<char>|
            exists|index: int|
                0 <= index < listing.len() && is_regular(#[trigger] listing[index])
                    && listing[index].name == name,
    )
}

/// Whether no two entries of a listing whose names are text have the same
/// name, as is the case in any directory.
pub open spec fn distinct_names(listing: Seq<EntryView>) -> bool {
    forall|first: int, second: int|
        0 <= first < second < listing.len() && (#[trigger] listing[first]).textual
            && (#[trigger] listing[second]).textual ==> listing[first].name
            != listing[second].name
}

/// The map that embedding a directory comes to: the map that the generated
/// block builds, where `listing` is what the directory holds and `stored`
/// the bytes at each path. There is none where no block is generated.
pub open spec fn embedding(
    directory: Seq<char>,
    listing: Seq<EntryView>,
    stored: Map<Seq<char>, Seq<u8>>,
) -> Option<Map<Seq<char>, Seq<u8>>> {
    match generated(directory, ProbeView::Listing(listing)) {
        Ok(code) => block_map(code, stored),
        Err(_) => None,
    }
}

/// Whether no entry of a listing blocks.
pub open spec fn unblocked(listing: Seq<EntryView>) -> bool {
    forall|index: int| 0 <= index < listing.len() ==> !blocks(#[trigger] listing[index])
}

/// Where some entry blocks, some entry is the first to block.
proof fn lemma_some_entry_blocks_first(listing: Seq<EntryView>, index: int)
    requires
        0 <= index < listing.len(),
        blocks(listing[index]),
    ensures
        exists|first: int| first_blocking(listing, first),
    decreases index,
{
    if forall|before: int| 0 <= before < index ==> !blocks(#[trigger] listing[before]) {
        assert(first_blocking(listing, index));
    } else {
        let before = choose|before: int| 0 <= before < index && blocks(#[trigger] listing[before]);
        lemma_some_entry_blocks_first(listing, before);
    }
}

/// A selection succeeds exactly where no entry blocks, and then it is the
/// regular files of the listing.
pub proof fn law_selection_succeeds_without_blocking_entry(
    directory: Seq<char>,
    listing: Seq<EntryView>,
)
    ensures
        selection(directory, listing) is Ok <==> unblocked(listing),
        selection(directory, listing) is Ok ==> selection(directory, listing) == Ok::<
            Seq<FileView>,
            Failure,
        >(retained(directory, listing)),
{
    if exists|index: int| 0 <= index < listing.len() && blocks(#[trigger] listing[index]) {
        let index = choose|index: int| 0 <= index < listing.len() && blocks(#[trigger] listing[index]);
        lemma_some_entry_blocks_first(listing, index);
    }
}

/// What holds of a listing holds of the listing without its last entry.
proof fn lemma_shorter_listing(listing: Seq<EntryView>)
    requires
        listing.len() > 0,
    ensures
        unblocked(listing) ==> unblocked(listing.drop_last()),
        distinct_names(listing) ==> distinct_names(listing.drop_last()),
        forall|name: Seq<char>|
            regular_names(listing).contains(name) <==> regular_names(listing.drop_last()).contains(
                name,
            ) || (is_regular(listing.last()) && name == listing.last().name),
{
    let earlier = listing.drop_last();
    assert forall|index: int| 0 <= index < earlier.len() implies #[trigger] earlier[index]
        == listing[index] by {}
    if unblocked(listing) {
        assert forall|index: int| 0 <= index < earlier.len() implies !blocks(
            #[trigger] earlier[index],
        ) by {
            assert(earlier[index] == listing[index]);
        }
    }
    if distinct_names(listing) {
        assert forall|first: int, second: int|
            0 <= first < second < earlier.len() && (#[trigger] earlier[first]).textual && (
            #[trigger] earlier[second]).textual implies earlier[first].name
            != earlier[second].name by {
            assert(earlier[first] == listing[first]);
            assert(earlier[second] == listing[second]);
        }
    }
    assert forall|name: Seq<char>|
        regular_names(listing).contains(name) <==> regular_names(earlier).contains(name) || (
        is_regular(listing.last()) && name == listing.last().name) by {
        if regular_names(earlier).contains(name) {
            let index = choose|index: int|
                0 <= index < earlier.len() && is_regular(#[trigger] earlier[index])
                    && earlier[index].name == name;
            assert(listing[index] == earlier[index]);
        }
        if is_regular(listing.last()) && name == listing.last().name {
            assert(listing[listing.len() - 1] == listing.last());
        }
        if regular_names(listing).contains(name) {
            let index = choose|index: int|
                0 <= index < listing.len() && is_regular(#[trigger] listing[index])
                    && listing[index].name == name;
            if index < earlier.len() {
                assert(earlier[index] == listing[index]);
            }
        }
    }
}

/// The map of the retained files: its keys, its values and its size.
proof fn lemma_map_of_retained(
    directory: Seq<char>,
    listing: Seq<EntryView>,
    stored: Map<Seq<char>, Seq<u8>>,
)
    ensures
        embedded_map(retained(directory, listing), stored).dom() == regular_names(listing),
        distinct_names(listing) && unblocked(listing) ==> forall|index: int|
            0 <= index < listing.len() && is_regular(#[trigger] listing[index]) ==> embedded_map(
                retained(directory, listing),
                stored,
            )[listing[index].name] == stored[entry_path(directory, listing[index])],
        regular_names(listing).finite(),
        distinct_names(listing) && unblocked(listing) ==> regular_names(listing).len() == retained(
            directory,
            listing,
        ).len(),
    decreases listing.len(),
{
    let files = retained(directory, listing);
    let map = embedded_map(files, stored);
    if listing.len() == 0 {
        assert(listing.filter(|entry: EntryView| is_regular(entry)).len() == 0) by {
            listing.lemma_filter_len(|entry: EntryView| is_regular(entry));
        }
        assert(files =~= Seq::empty());
        assert(map.dom() =~= regular_names(listing));
    } else {
        let earlier = listing.drop_last();
        let last = listing.last();
        assert(listing =~= earlier.push(last));
        lemma_retained_push(directory, earlier, last);
        lemma_shorter_listing(listing);
        lemma_map_of_retained(directory, earlier, stored);
        let earlier_files = retained(directory, earlier);
        if is_regular(last) {
            let file = file_of(directory, last);
            assert(files.drop_last() =~= earlier_files);
            assert(map == embedded_map(earlier_files, stored).insert(file.name, stored[file.path]));
            assert(regular_names(listing) =~= regular_names(earlier).insert(last.name));
            assert(map.dom() =~= regular_names(listing));
            if distinct_names(listing) && unblocked(listing) {
                assert(!blocks(listing[listing.len() - 1]));
                if regular_names(earlier).contains(last.name) {
                    let index = choose|index: int|
                        0 <= index < earlier.len() && is_regular(#[trigger] earlier[index])
                            && earlier[index].name == last.name;
                    assert(listing[index] == earlier[index]);
                    assert(false);
                }
                assert forall|index: int|
                    0 <= index < listing.len() && is_regular(
                        #[trigger] listing[index],
                    ) implies map[listing[index].name] == stored[entry_path(
                    directory,
                    listing[index],
                )] by {
                    if index < earlier.len() {
                        assert(earlier[index] == listing[index]);
                        assert(regular_names(earlier).contains(listing[index].name));
                    }
                }
            }
        } else {
            assert(regular_names(listing) =~= regular_names(earlier));
            if distinct_names(listing) && unblocked(listing) {
                assert forall|index: int|
                    0 <= index < listing.len() && is_regular(
                        #[trigger] listing[index],
                    ) implies map[listing[index].name] == stored[entry_path(
                    directory,
                    listing[index],
                )] by {
                    assert(earlier[index] == listing[index]);
                }
            }
        }
    }
}

/// A directory with a listing is embedded as the map of the files selected
/// from the listing, and not at all where the selection fails.
pub proof fn law_embedding_inserts_the_selected_files(
    directory: Seq<char>,
    listing: Seq<EntryView>,
    stored: Map<Seq<char>, Seq<u8>>,
)
    ensures
        embedding(directory, listing, stored) == match selection(directory, listing) {
            Ok(files) => Some(embedded_map(files, stored)),
            Err(_) => None,
        },
{
    if let Ok(files) = selection(directory, listing) {
        law_block_reads_back(files);
    }
}

/// Where a directory is embedded, the keys of the map are the names of the
/// regular files of the listing, and the value under each name is what is
/// stored at the path of the file of that name. No two names of a listing
/// are the same, as is the case in any directory.
pub proof fn law_map_holds_the_regular_files(
    directory: Seq<char>,
    listing: Seq<EntryView>,
    stored: Map<Seq<char>, Seq<u8>>,
    map: Map<Seq<char>, Seq<u8>>,
)
    requires
        distinct_names(listing),
        embedding(directory, listing, stored) == Some(map),
    ensures
        map.dom() == regular_names(listing),
        forall|index: int|
            0 <= index < listing.len() && is_regular(#[trigger] listing[index])
                ==> map[listing[index].name] == stored[entry_path(directory, listing[index])],
{
    law_embedding_inserts_the_selected_files(directory, listing, stored);
    law_selection_succeeds_without_blocking_entry(directory, listing);
    lemma_map_of_retained(directory, listing, stored);
}

/// A directory that holds regular files alone, each with a name that is
/// text and no two with the same name, is embedded whole: there is a map,
/// every name of the listing is a key of it and every key is such a name,
/// and the value under a name is what is stored at the file of that name.
pub proof fn law_directory_of_regular_files_is_embedded_whole(
    directory: Seq<char>,
    listing: Seq<EntryView>,
    stored: Map<Seq<char>, Seq<u8>>,
)
    requires
        distinct_names(listing),
        forall|index: int|
            0 <= index < listing.len() ==> is_regular(#[trigger] listing[index])
                && listing[index].textual,
    ensures
        embedding(directory, listing, stored) is Some,
        forall|name: Seq<char>|
            embedding(directory, listing, stored)->0.contains_key(name) <==> exists|index: int|
                0 <= index < listing.len() && (#[trigger] listing[index]).name == name,
        forall|index: int|
            0 <= index < listing.len() ==> embedding(directory, listing, stored)->0[(
            #[trigger] listing[index]).name] == stored[entry_path(directory, listing[index])],
{
    law_selection_succeeds_without_blocking_entry(directory, listing);
    law_embedding_inserts_the_selected_files(directory, listing, stored);
    let map = embedding(directory, listing, stored)->0;
    law_map_holds_the_regular_files(directory, listing, stored, map);
    assert forall|name: Seq<char>| map.contains_key(name) <==> exists|index: int|
        0 <= index < listing.len() && (#[trigger] listing[index]).name == name by {
        if map.contains_key(name) {
            assert(regular_names(listing).contains(name));
        }
        if exists|index: int| 0 <= index < listing.len() && (#[trigger] listing[index]).name == name {
            let index = choose|index: int|
                0 <= index < listing.len() && (#[trigger] listing[index]).name == name;
            assert(regular_names(listing).contains(name));
        }
    }
}

/// The name of an entry that is no regular file, a subdirectory for one, is
/// no key of the map. This is said of a name that is text, in a listing where
/// no two such names are the same.
pub proof fn law_other_entries_are_left_out(
    directory: Seq<char>,
    listing: Seq<EntryView>,
    stored: Map<Seq<char>, Seq<u8>>,
    map: Map<Seq<char>, Seq<u8>>,
    index: int,
)
    requires
        distinct_names(listing),
        embedding(directory, listing, stored) == Some(map),
        0 <= index < listing.len(),
        !is_regular(listing[index]),
        listing[index].textual,
    ensures
        !map.contains_key(listing[index].name),
{
    law_embedding_inserts_the_selected_files(directory, listing, stored);
    law_selection_succeeds_without_blocking_entry(directory, listing);
    law_map_holds_the_regular_files(directory, listing, stored, map);
    if regular_names(listing).contains(listing[index].name) {
        let other = choose|other: int|
            0 <= other < listing.len() && is_regular(#[trigger] listing[other])
                && listing[other].name == listing[index].name;
        if other < index {
            assert(listing[other].name != listing[index].name);
        } else {
            assert(listing[index].name != listing[other].name);
        }
    }
}

/// No file is embedded twice: where no two names of the listing are the
/// same, the map has as many keys as the listing has regular files.
pub proof fn law_no_file_is_embedded_twice(
    directory: Seq<char>,
    listing: Seq<EntryView>,
    stored: Map<Seq<char>, Seq<u8>>,
    map: Map<Seq<char>, Seq<u8>>,
)
    requires
        distinct_names(listing),
        embedding(directory, listing, stored) == Some(map),
    ensures
        map.dom().finite(),
        map.len() == retained(directory, listing).len(),
{
    law_embedding_inserts_the_selected_files(directory, listing, stored);
    law_selection_succeeds_without_blocking_entry(directory, listing);
    lemma_map_of_retained(directory, listing, stored);
}

/// An empty directory is embedded as an empty map: the block holds no
/// insertion, and the map that it builds has no key.
pub proof fn law_empty_directory_gives_empty_map(
    directory: Seq<char>,
    stored: Map<Seq<char>, Seq<u8>>,
)
    ensures
        generated(directory, ProbeView::Listing(Seq::<EntryView>::empty())) == Ok::<
            Seq<char>,
            Failure,
        >(BLOCK_OPENING@ + BLOCK_CLOSING@),
        embedding(directory, Seq::<EntryView>::empty(), stored) == Some(
            Map::<Seq<char>, Seq<u8>>::empty(),
        ),
        forall|name: Seq<char>|
            !embedding(directory, Seq::<EntryView>::empty(), stored)->0.contains_key(name),
{
    let listing = Seq::<EntryView>::empty();
    law_selection_succeeds_without_blocking_entry(directory, listing);
    law_embedding_inserts_the_selected_files(directory, listing, stored);
    assert(listing.filter(|entry: EntryView| is_regular(entry)).len() == 0) by {
        listing.lemma_filter_len(|entry: EntryView| is_regular(entry));
    }
    assert(retained(directory, listing) =~= Seq::<FileView>::empty());
    assert(block_text(Seq::<FileView>::empty()) =~= BLOCK_OPENING@ + BLOCK_CLOSING@);
}

/// A path that leads to no directory is not embedded: whatever the argument
/// resolves to, the failure names that resolved path, and there is no block.
pub proof fn law_missing_directory_is_not_found(
    argument: ArgumentView,
    build_root: Option<Seq<char>>,
    directory: Seq<char>,
)
    requires
        located(argument, build_root) == Ok::<Seq<char>, Failure>(directory),
    ensures
        embedded(argument, build_root, ProbeView::Missing) == Err::<Seq<char>, Failure>(
            Failure::NotFound { path: directory },
        ),
{
}

/// An argument that is no string literal is rejected for its shape, whatever
/// the build root and whatever is on disk.
pub proof fn law_other_arguments_are_rejected(
    argument: ArgumentView,
    build_root: Option<Seq<char>>,
    probe: ProbeView,
)
    requires
        !(argument is StringLiteral),
    ensures
        embedded(argument, build_root, probe) == Err::<Seq<char>, Failure>(Failure::ArgumentShape),
{
}

/// Characters that are neither a quote nor a backslash are passed one by
/// one on the way to the end of a literal.
proof fn lemma_end_after_run(text: Seq<char>, from: int, count: int)
    requires
        0 <= from,
        0 <= count,
        from + count <= text.len(),
        forall|index: int|
            from <= index < from + count ==> #[trigger] text[index] != '"' && text[index] != '\\',
    ensures
        literal_end(text, from) == literal_end(text, from + count),
    decreases count,
{
    if count > 0 {
        assert(text[from] != '"' && text[from] != '\\');
        lemma_end_after_run(text, from + 1, count - 1);
    }
}

/// What stands for one character is passed whole on the way to the end of a
/// literal.
proof fn lemma_end_after_escaped(before: Seq<char>, c: char, after: Seq<char>)
    ensures
        literal_end(before + escaped(c) + after, before.len() as int) == literal_end(
            before + escaped(c) + after,
            (before.len() + escaped(c).len()) as int,
        ),
{
    let text = before + escaped(c) + after;
    let from = before.len() as int;
    assert forall|index: int| 0 <= index < escaped(c).len() implies text[from + index] == escaped(
        c,
    )[index] by {}
    if c == '"' || c == '\\' || c == '\n' || c == '\r' || c == '\t' {
        assert(text[from] == escaped(c)[0]);
    } else if is_plain(c) {
        assert(text[from] == escaped(c)[0]);
    } else {
        let digits = hex_digits(c as nat);
        lemma_hex_digits_denote(c as nat);
        assert(text[from] == escaped(c)[0]);
        assert forall|index: int| from + 2 <= index < from + escaped(c).len() implies #[trigger] text[index]
            != '"' && text[index] != '\\' by {
            assert(text[index] == escaped(c)[index - from]);
            if 3 <= index - from < 3 + digits.len() {
                assert(escaped(c)[index - from] == digits[index - from - 3]);
                assert(hex_value(digits[index - from - 3]) is Some);
            }
        }
        lemma_end_after_run(text, from + 2, escaped(c).len() - 2);
    }
}

/// What stands for a text, with the closing quote, is passed whole on the
/// way to the end of a literal.
proof fn lemma_end_after_content(before: Seq<char>, content: Seq<char>, after: Seq<char>)
    ensures
        literal_end(
            before + escaped_text(content) + seq!['"'] + after,
            before.len() as int,
        ) == before.len() + escaped_text(content).len() + 1,
    decreases content.len(),
{
    let text = before + escaped_text(content) + seq!['"'] + after;
    if content.len() == 0 {
        assert(text[before.len() as int] == '"');
    } else {
        let first = escaped(content[0]);
        let later = escaped_text(content.skip(1));
        lemma_escaped_text_front(content);
        assert(text =~= before + first + (later + seq!['"'] + after));
        lemma_end_after_escaped(before, content[0], later + seq!['"'] + after);
        lemma_end_after_content(before + first, content.skip(1), after);
        assert(text =~= (before + first) + later + seq!['"'] + after);
    }
}

/// A literal as this library writes it is within every limit: nothing of it
/// stands outside a string literal at the front.
pub proof fn law_written_literal_is_not_exposed(text: Seq<char>)
    ensures
        exposed(literal_text(text)) == 0,
{
    let source = literal_text(text);
    lemma_end_after_content(seq!['"'], text, Seq::empty());
    assert(source =~= seq!['"'] + escaped_text(text) + seq!['"'] + Seq::<char>::empty());
    assert(source[0] == '"');
    assert(lead(source, 0) == 0);
    assert(front_literal_end(source) == Some(source.len() as int));
}

/// The POSIX convention is one that a host may have: resolution by the
/// answers that this convention gives is resolution in this convention.
pub proof fn law_posix_answers_resolve_alike(argument: Seq<char>, build_root: Option<Seq<char>>)
    ensures
        build_root matches Some(root) ==> resolved_by(
            argument,
            build_root,
            is_absolute_path(argument),
            joined(root, argument),
        ) == resolved(argument, build_root),
        build_root is None ==> forall|any: Seq<char>|
            resolved_by(argument, build_root, is_absolute_path(argument), any) == resolved(
                argument,
                build_root,
            ),
{
}

/// Resolution leaves an absolute path as it is, and from an absolute build
/// root it always yields an absolute path.
pub proof fn law_resolved_directory_is_absolute(argument: Seq<char>, build_root: Option<Seq<char>>)
    ensures
        is_absolute_path(argument) ==> resolved(argument, build_root) == Ok::<Seq<char>, Failure>(
            argument,
        ),
        build_root is Some && is_absolute_path(build_root->0) ==> resolved(argument, build_root)
            is Ok && is_absolute_path(resolved(argument, build_root)->Ok_0),
{
}

} // verus!
