//! The map that an emitted block evaluates to.
//!
//! The block inserts, for each embedded file in turn, the file's name with
//! the bytes stored at the file's path. [`embedded_map`] is the map that
//! results, and [`materialize`] builds it from the bytes that are stored.

use vstd::prelude::*;
use vstd::hash_map::StringHashMap;
use crate::listing::{file_views, FileEntry, FileView};

verus! {

/// The map that results from inserting each of `files` in turn, where
/// `stored` holds the bytes at each path.
pub open spec fn embedded_map(files: Seq<FileView>, stored: Map<Seq<char>, Seq<u8>>) -> Map<
    Seq<char>,
    Seq<u8>,
>
    decreases files.len(),
{
    if files.len() == 0 {
        Map::empty()
    } else {
        embedded_map(files.drop_last(), stored).insert(
            files.last().name,
            stored[files.last().path],
        )
    }
}

/// Whether bytes are stored at the path of each of `files`.
pub open spec fn all_stored(files: Seq<FileView>, stored: Map<Seq<char>, Seq<u8>>) -> bool {
    forall|index: int| 0 <= index < files.len() ==> stored.contains_key(#[trigger] files[index].path)
}

/// A map from text to bytes, held in memory.
pub struct EmbeddedMap {
    map: StringHashMap<Vec<u8>>,
}

impl View for EmbeddedMap {
    type V = Map<Seq<char>, Seq<u8>>;

    closed spec fn view(&self) -> Map<Seq<char>, Seq<u8>> {
        self.map@.map_values(|bytes: Vec<u8>| bytes@)
    }
}

impl EmbeddedMap {
    /// Makes a map without entries.
    pub fn new() -> (map: EmbeddedMap)
        ensures
            map@ == Map::<Seq<char>, Seq<u8>>::empty(),
    {
        let map = EmbeddedMap { map: StringHashMap::new() };
        map
    }

    /// Stores `bytes` under `name`, in place of what was stored there.
    pub fn insert(&mut self, name: String, bytes: Vec<u8>)
        ensures
            final(self)@ == old(self)@.insert(name@, bytes@),
    {
        self.map.insert(name, bytes);
        assert(self@ =~= old(self)@.insert(name@, bytes@));
    }

    /// Looks up the bytes stored under `name`.
    pub fn get(&self, name: &str) -> (found: Option<&Vec<u8>>)
        ensures
            match found {
                Some(bytes) => self@.contains_key(name@) && bytes@ == self@[name@],
                None => !self@.contains_key(name@),
            },
    {
        self.map.get(name)
    }

    /// Counts the entries.
    pub fn len(&self) -> (count: usize)
        ensures
            count == self@.len(),
    {
        assert(self@.dom() =~= self.map@.dom());
        self.map.len()
    }
}

/// Copies a sequence of bytes.
fn copy_bytes(bytes: &Vec<u8>) -> (copy: Vec<u8>)
    ensures
        copy@ == bytes@,
{
    let mut copy: Vec<u8> = Vec::new();
    let mut index: usize = 0;
    while index < bytes.len()
        invariant
            index <= bytes.len(),
            copy@ == bytes@.take(index as int),
        decreases bytes.len() - index,
    {
        copy.push(bytes[index]);
        assert(copy@ =~= bytes@.take(index + 1));
        index += 1;
    }
    assert(bytes@.take(index as int) =~= bytes@);
    copy
}

/// Builds the map that the block for `files` evaluates to, where `stored`
/// holds the bytes at each path.
///
/// There is no map where one of the files has nothing stored at its path: the
/// block cannot be compiled then.
pub fn materialize(files: &Vec<FileEntry>, stored: &EmbeddedMap) -> (result: Option<EmbeddedMap>)
    ensures
        match result {
            Some(map) => all_stored(file_views(files@), stored@) && map@ == embedded_map(
                file_views(files@),
                stored@,
            ),
            None => !all_stored(file_views(files@), stored@),
        },
{
    let ghost views = file_views(files@);
    let mut map = EmbeddedMap::new();
    let mut index: usize = 0;
    while index < files.len()
        invariant
            index <= files.len(),
            views == file_views(files@),
            all_stored(views.take(index as int), stored@),
            map@ == embedded_map(views.take(index as int), stored@),
        decreases files.len() - index,
    {
        let file = &files[index];
        assert(views.take(index + 1).drop_last() =~= views.take(index as int));
        match stored.get(file.path.as_str()) {
            Some(bytes) => {
                map.insert(file.name.clone(), copy_bytes(bytes));
            },
            None => {
                assert(views[index as int].path == file.path@);
                return None;
            },
        }
        index += 1;
    }
    assert(views.take(index as int) =~= views);
    Some(map)
}

} // verus!
