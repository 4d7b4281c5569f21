//! What the engine reads of the disk, held in memory.
//!
//! The engine does not read the disk itself. Whoever calls it reads the
//! directories and files of an installation and hands them over as a
//! [`Snapshot`]; the engine then answers from that alone.

use vstd::prelude::*;
use vstd::string::*;
use vstd::utf8::*;

use crate::error::{IoError, IoErrorKind};
use crate::text::{str_eq, utf8_text};

verus! {

/// What stands at one name of the disk.
#[derive(Debug, PartialEq, Eq)]
pub enum Item {
    /// A file, with the bytes it holds.
    File(Vec<u8>),
    /// A directory, with what it holds, in the order the system lists it.
    Dir(Vec<DirEntry>),
    /// Something that is there and cannot be read.
    Unreadable(IoError),
}

/// One name of a directory, with what stands at it.
#[derive(Debug, PartialEq, Eq)]
pub struct DirEntry {
    pub name: String,
    pub item: Item,
}

/// The parts of the disk that were read: some directories, each under the
/// path that it was read at, with everything below it that matters.
#[derive(Debug, PartialEq, Eq)]
pub struct Snapshot {
    pub roots: Vec<DirEntry>,
}

/// The index of the first entry from `from` on that has the name.
pub open spec fn index_of(entries: Seq<DirEntry>, name: Seq<char>, from: int) -> Option<int>
    decreases entries.len() - from,
{
    if from < 0 || from >= entries.len() {
        None
    } else if entries[from].name@ == name {
        Some(from)
    } else {
        index_of(entries, name, from + 1)
    }
}

/// What stands at a name of a directory: the item of the first entry with
/// that name.
pub open spec fn child(entries: Seq<DirEntry>, name: Seq<char>) -> Option<Item> {
    match index_of(entries, name, 0) {
        Some(i) => Some(entries[i].item),
        None => None,
    }
}

/// What stands at a name below an item: what a directory holds under the
/// name; below something that cannot be read, the same thing that cannot
/// be read; below a file, or below nothing, nothing.
pub open spec fn below(item: Option<Item>, name: Seq<char>) -> Option<Item> {
    match item {
        Some(Item::Dir(entries)) => child(entries@, name),
        Some(Item::Unreadable(error)) => Some(Item::Unreadable(error)),
        _ => None,
    }
}

/// Whether an item is there and is a directory.
pub open spec fn is_dir(item: Option<Item>) -> bool {
    item matches Some(Item::Dir(_))
}

/// Whether an item is there and is a file.
pub open spec fn is_file(item: Option<Item>) -> bool {
    item matches Some(Item::File(_))
}

/// Whether an item is there and is not known to be a directory: it is a
/// file, or it cannot be read.
pub open spec fn may_be_file(item: Option<Item>) -> bool {
    item matches Some(Item::File(_)) || item matches Some(Item::Unreadable(_))
}

/// Whether `error` is the failure of kind `kind` to read `item`. Where the
/// item is there and cannot be read, the failure is the item's own,
/// message and all; any other failure is without a message.
pub open spec fn fails_as(item: Option<Item>, kind: IoErrorKind, error: IoError) -> bool {
    &&& error.kind == kind
    &&& match item {
        Some(Item::Unreadable(own)) => error == own,
        _ => error.message@.len() == 0,
    }
}

/// What listing an item as a directory comes to: its entries, or the
/// failure of a directory that is not there, that cannot be read, or that
/// is a file.
pub open spec fn listing(item: Option<Item>) -> Result<Seq<DirEntry>, IoErrorKind> {
    match item {
        None => Err(IoErrorKind::NotFound),
        Some(Item::Dir(entries)) => Ok(entries@),
        Some(Item::Unreadable(error)) => Err(error.kind),
        Some(Item::File(_)) => Err(IoErrorKind::Other),
    }
}

/// What reading an item as a file comes to: its bytes, or the failure of
/// a file that is not there, that cannot be read, or that is a directory.
pub open spec fn bytes_of(item: Option<Item>) -> Result<Seq<u8>, IoErrorKind> {
    match item {
        None => Err(IoErrorKind::NotFound),
        Some(Item::File(bytes)) => Ok(bytes@),
        Some(Item::Unreadable(error)) => Err(error.kind),
        Some(Item::Dir(_)) => Err(IoErrorKind::Other),
    }
}

/// What reading an item as a text file comes to: the text that its bytes
/// are the UTF-8 encoding of, or the failure of the read; bytes that are no
/// UTF-8 are invalid data.
pub open spec fn text_in(item: Option<Item>) -> Result<Seq<char>, IoErrorKind> {
    match bytes_of(item) {
        Ok(bytes) => if valid_utf8(bytes) {
            Ok(decode_utf8(bytes))
        } else {
            Err(IoErrorKind::InvalidData)
        },
        Err(kind) => Err(kind),
    }
}

/// Finds what stands at a name of a directory.
pub fn find_child<'a>(entries: &'a Vec<DirEntry>, name: &str) -> (found: Option<&'a Item>)
    ensures
        match child(entries@, name@) {
            Some(item) => found == Some(&item),
            None => found is None,
        },
{
    let mut i: usize = 0;
    while i < entries.len()
        invariant
            i <= entries.len(),
            index_of(entries@, name@, 0) == index_of(entries@, name@, i as int),
        decreases entries.len() - i,
    {
        if str_eq(entries[i].name.as_str(), name) {
            return Some(&entries[i].item);
        }
        i += 1;
    }
    None
}

/// Finds what stands at a name below an item.
pub fn find_below<'a>(item: Option<&'a Item>, name: &str) -> (found: Option<&'a Item>)
    ensures
        match below(
            match item {
                Some(it) => Some(*it),
                None => None,
            },
            name@,
        ) {
            Some(under) => found == Some(&under),
            None => found is None,
        },
{
    match item {
        Some(Item::Dir(entries)) => find_child(entries, name),
        Some(Item::Unreadable(_)) => item,
        _ => None,
    }
}

/// The item behind an optional reference.
pub open spec fn held(item: Option<&Item>) -> Option<Item> {
    match item {
        Some(it) => Some(*it),
        None => None,
    }
}

/// Lists an item as a directory.
pub fn list_dir<'a>(item: Option<&'a Item>) -> (listed: Result<&'a Vec<DirEntry>, IoError>)
    ensures
        match listing(held(item)) {
            Ok(entries) => listed matches Ok(found) && found@ == entries,
            Err(kind) => listed matches Err(error) && fails_as(held(item), kind, error),
        },
{
    match item {
        None => Err(IoError::of_kind(IoErrorKind::NotFound)),
        Some(Item::Dir(entries)) => Ok(entries),
        Some(Item::Unreadable(error)) => Err(error.duplicate()),
        Some(Item::File(_)) => Err(IoError::of_kind(IoErrorKind::Other)),
    }
}

/// Reads an item as a file.
pub fn read_bytes<'a>(item: Option<&'a Item>) -> (read: Result<&'a Vec<u8>, IoError>)
    ensures
        match bytes_of(held(item)) {
            Ok(bytes) => read matches Ok(found) && found@ == bytes,
            Err(kind) => read matches Err(error) && fails_as(held(item), kind, error),
        },
{
    match item {
        None => Err(IoError::of_kind(IoErrorKind::NotFound)),
        Some(Item::File(bytes)) => Ok(bytes),
        Some(Item::Unreadable(error)) => Err(error.duplicate()),
        Some(Item::Dir(_)) => Err(IoError::of_kind(IoErrorKind::Other)),
    }
}

/// Reads an item as a text file.
pub fn read_text<'a>(item: Option<&'a Item>) -> (read: Result<&'a str, IoError>)
    ensures
        match text_in(held(item)) {
            Ok(text) => read matches Ok(found) && found@ == text,
            Err(kind) => read matches Err(error) && fails_as(held(item), kind, error),
        },
{
    let bytes = read_bytes(item)?;
    match utf8_text(bytes.as_slice()) {
        Some(text) => Ok(text),
        None => Err(IoError::of_kind(IoErrorKind::InvalidData)),
    }
}

impl Snapshot {
    /// What stands at a path that was read.
    pub open spec fn at(self, path: Seq<char>) -> Option<Item> {
        child(self.roots@, path)
    }

    /// A snapshot of nothing.
    pub fn new() -> (snapshot: Snapshot)
        ensures
            snapshot.roots@.len() == 0,
    {
        Snapshot { roots: Vec::new() }
    }

    /// Finds what stands at a path that was read.
    pub fn root(&self, path: &str) -> (found: Option<&Item>)
        ensures
            held(found) == self.at(path@),
    {
        find_child(&self.roots, path)
    }
}

} // verus!
