//! What a probe of the directory found, and which of its entries are embedded.

use vstd::prelude::*;
use crate::error::{EmbedError, Failure};
use crate::path::{join, joined};

verus! {

/// The type of a directory entry, as far as embedding cares.
#[derive(Debug, Clone, Copy, PartialEq, Eq)]
pub enum EntryKind {
    /// A regular file.
    File,
    /// A directory.
    Directory,
    /// A symbolic link, whatever it points to.
    Symlink,
    /// A device, socket, pipe or other special file.
    Special,
    /// The type could not be determined.
    Unknown,
    /// The entry itself could not be read, so that it has neither a name nor
    /// a type.
    Unreadable,
}

/// One immediate child of the directory, as the probe reported it. Of an
/// entry that could not be read the name says nothing.
#[derive(Debug, Clone, PartialEq, Eq)]
pub struct RawEntry {
    /// The base name; where it is not text, the nearest rendering as text.
    pub name: String,
    /// Whether `name` is the name itself, and not a rendering of it.
    pub textual: bool,
    /// The type of the entry.
    pub kind: EntryKind,
    /// The path of the entry as the probe gave it, in the convention of the
    /// host. Where the probe gave none, the name is joined onto the
    /// directory in the POSIX convention.
    pub path: Option<String>,
}

/// A [`RawEntry`] with its strings read as sequences of characters.
pub struct EntryView {
    pub name: Seq<char>,
    pub textual: bool,
    pub kind: EntryKind,
    pub path: Option<Seq<char>>,
}

impl View for RawEntry {
    type V = EntryView;

    open spec fn view(&self) -> EntryView {
        EntryView {
            name: self.name@,
            textual: self.textual,
            kind: self.kind,
            path: match self.path {
                Some(path) => Some(path@),
                None => None,
            },
        }
    }
}

/// A regular file that is embedded.
#[derive(Debug, Clone, PartialEq, Eq)]
pub struct FileEntry {
    /// The base name: the key under which the bytes are stored.
    pub name: String,
    /// Where the bytes are read from when the emitted block is compiled.
    pub path: String,
}

/// A [`FileEntry`] with its strings read as sequences of characters.
pub struct FileView {
    pub name: Seq<char>,
    pub path: Seq<char>,
}

impl View for FileEntry {
    type V = FileView;

    open spec fn view(&self) -> FileView {
        FileView { name: self.name@, path: self.path@ }
    }
}

/// What a probe of the resolved directory found.
#[derive(Debug, Clone, PartialEq, Eq)]
pub enum DirectoryProbe {
    /// Nothing is there, or what is there is no directory.
    Missing,
    /// A directory is there, but its entries could not be read.
    Unreadable,
    /// A directory is there, with these immediate entries.
    Listing(Vec<RawEntry>),
}

/// A [`DirectoryProbe`] with its entries read through their views.
pub enum ProbeView {
    Missing,
    Unreadable,
    Listing(Seq<EntryView>),
}

impl View for DirectoryProbe {
    type V = ProbeView;

    open spec fn view(&self) -> ProbeView {
        match *self {
            DirectoryProbe::Missing => ProbeView::Missing,
            DirectoryProbe::Unreadable => ProbeView::Unreadable,
            DirectoryProbe::Listing(listing) => ProbeView::Listing(entry_views(listing@)),
        }
    }
}

/// The views of the entries of a listing, in order.
pub open spec fn entry_views(listing: Seq<RawEntry>) -> Seq<EntryView> {
    Seq::new(listing.len(), |i: int| listing[i]@)
}

/// The views of a sequence of files, in order.
pub open spec fn file_views(files: Seq<FileEntry>) -> Seq<FileView> {
    Seq::new(files.len(), |i: int| files[i]@)
}

/// Whether an entry is a regular file.
pub open spec fn is_regular(entry: EntryView) -> bool {
    entry.kind is File
}

/// Whether an entry stops the embedding: it could not be read, its type is
/// unknown, or it is a regular file whose name is not text.
pub open spec fn blocks(entry: EntryView) -> bool {
    entry.kind is Unreadable || entry.kind is Unknown || (entry.kind is File && !entry.textual)
}

/// The failure that a blocking entry of `directory` causes.
pub open spec fn failure_of(directory: Seq<char>, entry: EntryView) -> Failure {
    if entry.kind is Unreadable {
        Failure::Io { path: directory, entry: None }
    } else if entry.kind is Unknown {
        Failure::Io { path: directory, entry: Some(entry.name) }
    } else {
        Failure::Encoding { path: directory, entry: entry.name }
    }
}

/// The path of an entry of `directory`: the one that the probe gave, or else
/// the name joined onto the directory in the POSIX convention.
pub open spec fn entry_path(directory: Seq<char>, entry: EntryView) -> Seq<char> {
    match entry.path {
        Some(path) => path,
        None => joined(directory, entry.name),
    }
}

/// The embedded file that a regular entry of `directory` becomes.
pub open spec fn file_of(directory: Seq<char>, entry: EntryView) -> FileView {
    FileView { name: entry.name, path: entry_path(directory, entry) }
}

/// The regular files of a listing, in the order of the listing, each with
/// its path.
pub open spec fn retained(directory: Seq<char>, listing: Seq<EntryView>) -> Seq<FileView> {
    listing.filter(|entry: EntryView| is_regular(entry)).map_values(
        |entry: EntryView| file_of(directory, entry),
    )
}

/// Whether `index` is the place of the first blocking entry of a listing.
pub open spec fn first_blocking(listing: Seq<EntryView>, index: int) -> bool {
    &&& 0 <= index < listing.len()
    &&& blocks(listing[index])
    &&& forall|before: int| 0 <= before < index ==> !blocks(#[trigger] listing[before])
}

/// What the selection of files from a listing comes to: the failure of the
/// first blocking entry, or else the regular files.
pub open spec fn selection(directory: Seq<char>, listing: Seq<EntryView>) -> Result<
    Seq<FileView>,
    Failure,
> {
    if exists|index: int| first_blocking(listing, index) {
        Err(failure_of(directory, listing[choose|index: int| first_blocking(listing, index)]))
    } else {
        Ok(retained(directory, listing))
    }
}

/// The outcome of a selection, read through views.
pub open spec fn files_outcome(result: Result<Vec<FileEntry>, EmbedError>) -> Result<
    Seq<FileView>,
    Failure,
> {
    match result {
        Ok(files) => Ok(file_views(files@)),
        Err(error) => Err(error@),
    }
}

/// Retaining from a listing with one more entry: a regular file is added at
/// the end, and any other entry changes nothing.
pub proof fn lemma_retained_push(directory: Seq<char>, listing: Seq<EntryView>, entry: EntryView)
    ensures
        retained(directory, listing.push(entry)) == if is_regular(entry) {
            retained(directory, listing).push(file_of(directory, entry))
        } else {
            retained(directory, listing)
        },
{
    listing.lemma_filter_push(entry, |entry: EntryView| is_regular(entry));
    assert(retained(directory, listing.push(entry)) =~= if is_regular(entry) {
        retained(directory, listing).push(file_of(directory, entry))
    } else {
        retained(directory, listing)
    });
}

/// Selects the regular files of `listing`, the entries of `directory`.
///
/// The entries are taken in order. The first that could not be read, whose
/// type is unknown, or which is a regular file with a name that is not text,
/// ends the selection with its failure. Entries of any other type are passed
/// over.
pub fn select_files(directory: &str, listing: &Vec<RawEntry>) -> (result: Result<
    Vec<FileEntry>,
    EmbedError,
>)
    ensures
        files_outcome(result) == selection(directory@, entry_views(listing@)),
{
    let ghost entries = entry_views(listing@);
    let mut files: Vec<FileEntry> = Vec::new();
    let mut index: usize = 0;
    while index < listing.len()
        invariant
            index <= listing.len(),
            entries == entry_views(listing@),
            forall|before: int| 0 <= before < index ==> !blocks(#[trigger] entries[before]),
            file_views(files@) == retained(directory@, entries.take(index as int)),
        decreases listing.len() - index,
    {
        let entry = &listing[index];
        proof {
            lemma_retained_push(directory@, entries.take(index as int), entries[index as int]);
            assert(entries.take(index as int).push(entries[index as int]) =~= entries.take(
                index + 1,
            ));
        }
        match entry.kind {
            EntryKind::Unreadable => {
                assert(first_blocking(entries, index as int));
                return Err(EmbedError::Io { path: directory.to_owned(), entry: None });
            },
            EntryKind::Unknown => {
                assert(first_blocking(entries, index as int));
                return Err(
                    EmbedError::Io { path: directory.to_owned(), entry: Some(entry.name.clone()) },
                );
            },
            EntryKind::File => {
                if !entry.textual {
                    assert(first_blocking(entries, index as int));
                    return Err(
                        EmbedError::Encoding {
                            path: directory.to_owned(),
                            entry: entry.name.clone(),
                        },
                    );
                }
                let path = match &entry.path {
                    Some(path) => path.clone(),
                    None => join(directory, entry.name.as_str()),
                };
                let file = FileEntry { name: entry.name.clone(), path };
                let ghost earlier = files@;
                files.push(file);
                assert(file_views(files@) =~= file_views(earlier).push(file@));
            },
            _ => {},
        }
        index += 1;
    }
    assert(entries.take(index as int) =~= entries);
    Ok(files)
}

} // verus!
