//! Library folders: the listing that names them, and what one of them
//! holds.

use vstd::prelude::*;
use vstd::string::*;

use vstd::slice::*;
use vstd::utf8::*;

use crate::app::App;
use crate::document::{
    branches, lookup_text, number_in, parsed_document, text_of, Branch, Document, Entry, Field,
    Top, Tree,
};
use crate::error::{Error, ParseError, ParseErrorInner, ParseErrorKind};
use crate::files::{
    below, child, fails_as, find_below, find_child, held, is_dir, list_dir, listing,
    may_be_file, read_text, text_in, DirEntry, Item, Snapshot,
};
use crate::manifest::manifest_failure;
use crate::text::{
    all_ascii, append_bytes, ascii_chars, ascii_text, decimal_digits, digits_up_to, join, joined,
    lemma_decimal_digits, parse_digits, parse_unsigned, push_decimal, texts,
};

verus! {

/// Whether a key of the listing numbers a library folder.
pub open spec fn is_numbered(key: Seq<char>) -> bool {
    number_in(key, u32::MAX as nat) is Some
}

/// The path that an entry of the listing gives for its library folder: the
/// text under `path` in the table that the entry's key first stands for.
pub open spec fn entry_path(entry: Branch) -> Option<Seq<char>> {
    if entry.values.len() > 0 {
        match entry.values[0] {
            Tree::Table(table) => match text_of(table, "path"@) {
                Field::Valid(path) => Some(path),
                _ => None,
            },
            Tree::Text(_) => None,
        }
    } else {
        None
    }
}

/// The entries of the listing that number a library folder, in the
/// listing's order.
pub open spec fn numbered_entries(entries: Seq<Branch>) -> Seq<Branch> {
    entries.filter(|entry: Branch| is_numbered(entry.key))
}

/// The library folders that a listing names: the path of each numbered
/// entry, in the listing's order. One numbered entry without a path makes
/// the whole listing void.
pub open spec fn listed_paths(entries: Seq<Branch>) -> Option<Seq<Seq<char>>> {
    let numbered = numbered_entries(entries);
    if forall|i: int| 0 <= i < numbered.len() ==> (#[trigger] entry_path(numbered[i])) is Some {
        Some(numbered.map_values(|entry: Branch| entry_path(entry).unwrap()))
    } else {
        None
    }
}

/// The library folders that a document names, if it is a listing at all.
pub open spec fn document_paths(document: Top) -> Option<Seq<Seq<char>>> {
    match document.value {
        Tree::Table(table) => listed_paths(table),
        Tree::Text(_) => None,
    }
}

/// The path that an entry of the listing gives for its library folder.
pub fn path_of_entry<'a>(entry: &'a Entry) -> (path: Option<&'a str>)
    ensures
        match entry_path(entry@) {
            Some(text) => path matches Some(found) && found@ == text,
            None => path is None,
        },
{
    if entry.values.len() == 0 {
        return None;
    }
    match entry.values[0].get_obj() {
        None => None,
        Some(table) => match lookup_text(table, "path") {
            Field::Valid(path) => Some(path),
            _ => None,
        },
    }
}

/// A listing with one more entry names the same folders and then, if the
/// new entry is numbered, the folder of that entry: the order of the
/// listing is the order of the result.
pub proof fn lemma_listing_keeps_order(entries: Seq<Branch>, last: Branch)
    ensures
        listed_paths(entries.push(last)) == if !is_numbered(last.key) {
            listed_paths(entries)
        } else {
            match (listed_paths(entries), entry_path(last)) {
                (Some(paths), Some(path)) => Some(paths.push(path)),
                _ => None,
            }
        },
{
    reveal(Seq::filter);
    let numbered = |entry: Branch| is_numbered(entry.key);
    let path = |entry: Branch| entry_path(entry).unwrap();
    let longer = entries.push(last);
    assert(longer.drop_last() =~= entries);
    let before = numbered_entries(entries);
    let after = numbered_entries(longer);
    if is_numbered(last.key) {
        assert(after == before.push(last));
        if listed_paths(entries) is Some && entry_path(last) is Some {
            assert forall|i: int| 0 <= i < after.len() implies (#[trigger] entry_path(
                after[i],
            )) is Some by {
                if i < before.len() {
                    assert(after[i] == before[i]);
                }
            }
            assert(after.map_values(path) =~= before.map_values(path).push(
                entry_path(last).unwrap(),
            ));
        } else if entry_path(last) is None {
            assert(after[after.len() - 1] == last);
        } else {
            let i = choose|i: int| 0 <= i < before.len() && !((#[trigger] entry_path(
                before[i],
            )) is Some);
            assert(after[i] == before[i]);
        }
    } else {
        assert(after == before);
    }
}

/// One numbered entry without a path makes the whole listing void,
/// whatever the other entries hold.
pub proof fn lemma_missing_path_voids_listing(entries: Seq<Branch>, at: int)
    requires
        0 <= at < entries.len(),
        is_numbered(entries[at].key),
        entry_path(entries[at]) is None,
    ensures
        listed_paths(entries) is None,
{
    let numbered = |entry: Branch| is_numbered(entry.key);
    entries.lemma_filter_contains(numbered, at);
    let found = numbered_entries(entries);
    let i = choose|i: int| 0 <= i < found.len() && found[i] == entries[at];
    assert(entry_path(found[i]) is None);
}

/// Resolves the library folders that a listing document names.
///
/// Every key of the top table that reads as an unsigned 32-bit number
/// stands for one folder and must give its path; other keys are passed
/// over. The paths come in the order of the document.
pub fn library_paths_in(document: &Document) -> (resolved: Result<Vec<String>, ParseError>)
    ensures
        match document_paths(document@) {
            Some(paths) => resolved matches Ok(found) && texts(found@) == paths,
            None => resolved matches Err(error) && error.inner
                == ParseErrorInner::UnexpectedStructure,
        },
{
    let entries = match document.value.get_obj() {
        Some(entries) => entries,
        None => return Err(ParseError::unexpected_structure()),
    };
    let ghost table = branches(entries@);
    let mut paths: Vec<String> = Vec::new();
    let mut i: usize = 0;
    while i < entries.len()
        invariant
            i <= entries.len(),
            table == branches(entries@),
            document@.value == Tree::Table(table),
            listed_paths(table.take(i as int)) == Some(texts(paths@)),
        decreases entries.len() - i,
    {
        let entry = &entries[i];
        proof {
            assert(table[i as int] == entry@);
            assert(table.take(i as int + 1) =~= table.take(i as int).push(entry@));
            lemma_listing_keeps_order(table.take(i as int), entry@);
        }
        if parse_unsigned(entry.key.as_str(), u32::MAX as u64).is_some() {
            match path_of_entry(entry) {
                Some(path) => {
                    paths.push(path.to_owned());
                    assert(texts(paths@) =~= texts(paths@.drop_last()).push(path@));
                },
                None => {
                    proof {
                        lemma_void_listing_stays_void(table, i as int + 1);
                    }
                    return Err(ParseError::unexpected_structure());
                },
            }
        }
        i += 1;
    }
    assert(table.take(i as int) =~= table);
    Ok(paths)
}

/// A listing that is void up to some entry is void as a whole: no later
/// entry mends an entry without a path.
pub proof fn lemma_void_listing_stays_void(entries: Seq<Branch>, len: int)
    requires
        0 <= len <= entries.len(),
        listed_paths(entries.take(len)) is None,
    ensures
        listed_paths(entries) is None,
    decreases entries.len() - len,
{
    if len < entries.len() {
        assert(entries.take(len + 1) =~= entries.take(len).push(entries[len]));
        lemma_listing_keeps_order(entries.take(len), entries[len]);
        lemma_void_listing_stays_void(entries, len + 1);
    } else {
        assert(entries.take(len) =~= entries);
    }
}

/// The library folders that a listing file names: the file is a text that
/// stands for a document, and the document is a listing.
pub open spec fn folders_in(file: Option<Item>) -> Option<Seq<Seq<char>>> {
    match text_in(file) {
        Err(_) => None,
        Ok(text) => match parsed_document(text) {
            None => None,
            Some(document) => document_paths(document),
        },
    }
}

/// Whether `error` is the failure of the listing file at `path` to name
/// library folders, with the path. A listing that is not there, or is a
/// directory, is missing. One that cannot be read as text gives the
/// failure of the read. Else the failure is the parser's, or, of a text
/// that stands for a document that is no listing, that of the structure.
pub open spec fn listing_failure(path: Seq<char>, file: Option<Item>, error: Error) -> bool {
    if !may_be_file(file) {
        error matches Error::Parse { kind, error: cause, path: at } && kind
            == ParseErrorKind::LibraryFolders && cause.inner == ParseErrorInner::Missing && at@
            == path
    } else {
        match text_in(file) {
            Err(io) => error matches Error::Io { inner, path: at } && fails_as(file, io, inner)
                && at@ == path,
            Ok(text) => error matches Error::Parse { kind, error: cause, path: at } && kind
                == ParseErrorKind::LibraryFolders && at@ == path && match cause.inner {
                ParseErrorInner::Parse(_) => true,
                ParseErrorInner::UnexpectedStructure => match parsed_document(text) {
                    Some(document) => document_paths(document) is None,
                    None => false,
                },
                _ => false,
            },
        }
    }
}

/// Whether `outcome` is what resolving the listing file at `path` comes
/// to: the library folders that it names, or its failure to name any.
/// Where the file is a text, the parser decides whether it gets through
/// it; everything else is decided here.
pub open spec fn listing_outcome(
    path: Seq<char>,
    file: Option<Item>,
    outcome: Result<Vec<String>, Error>,
) -> bool {
    match outcome {
        Ok(found) => folders_in(file) == Some(texts(found@)),
        Err(error) => listing_failure(path, file, error),
    }
}

/// Resolves the library folders that the listing file at `path` names.
pub fn parse_library_paths(path: &str, file: Option<&Item>) -> (resolved: Result<
    Vec<String>,
    Error,
>)
    ensures
        listing_outcome(path@, held(file), resolved),
{
    match file {
        Some(Item::File(_)) => {},
        Some(Item::Unreadable(_)) => {},
        _ => {
            return Err(Error::parse(ParseErrorKind::LibraryFolders, ParseError::missing(), path));
        },
    }
    let contents = match read_text(file) {
        Ok(contents) => contents,
        Err(io) => return Err(Error::io(io, path)),
    };
    let document = match Document::parse(contents) {
        Ok(document) => document,
        Err(error) => return Err(Error::parse(ParseErrorKind::LibraryFolders, error, path)),
    };
    match library_paths_in(&document) {
        Ok(paths) => Ok(paths),
        Err(error) => Err(Error::parse(ParseErrorKind::LibraryFolders, error, path)),
    }
}

/// Starts a walk over the library folders that the listing file at `path`
/// names, each to be made a library of from `files`.
pub fn parse_library_folders<'a>(path: &str, file: Option<&Item>, files: &'a Snapshot) -> (walk:
    Result<LibraryIter<'a>, Error>)
    ensures
        match walk {
            Ok(libraries) => libraries.files() == *files && folders_in(held(file)) == Some(
                libraries.remaining(),
            ),
            Err(error) => listing_failure(path@, held(file), error),
        },
{
    match parse_library_paths(path, file) {
        Ok(paths) => Ok(LibraryIter::new(paths, files)),
        Err(error) => Err(error),
    }
}

/// What the name of every manifest file begins with: `appmanifest_`.
pub open spec fn manifest_prefix() -> Seq<u8> {
    seq![0x61u8, 0x70, 0x70, 0x6d, 0x61, 0x6e, 0x69, 0x66, 0x65, 0x73, 0x74, 0x5f]
}

/// What the name of every manifest file ends with: `.acf`.
pub open spec fn manifest_suffix() -> Seq<u8> {
    seq![0x2eu8, 0x61, 0x63, 0x66]
}

/// The app whose manifest a file name names: the name is `appmanifest_`,
/// digits that write an app id, and `.acf`.
pub open spec fn manifest_id(name: Seq<u8>) -> Option<u32> {
    if name.len() >= 16 && name.take(12) == manifest_prefix() && name.skip(name.len() - 4)
        == manifest_suffix() {
        match digits_up_to(name.subrange(12, name.len() - 4), u32::MAX as nat) {
            Some(id) => Some(id as u32),
            None => None,
        }
    } else {
        None
    }
}

/// The app whose manifest a directory entry is, going by its name.
pub open spec fn entry_id(entry: DirEntry) -> Option<u32> {
    manifest_id(encode_utf8(entry.name@))
}

/// The apps that a directory holds a manifest of, each of them once, in
/// the order in which the directory first names them.
pub open spec fn manifest_ids(entries: Seq<DirEntry>) -> Seq<u32>
    decreases entries.len(),
{
    if entries.len() == 0 {
        Seq::empty()
    } else {
        let before = manifest_ids(entries.drop_last());
        match entry_id(entries.last()) {
            Some(id) => if before.contains(id) {
                before
            } else {
                before.push(id)
            },
            None => before,
        }
    }
}

/// The name of the manifest file of an app, as a text.
pub open spec fn manifest_file(app_id: u32) -> Seq<char> {
    ascii_chars(manifest_name_of(app_id))
}

/// Reads the app whose manifest a file name names.
pub fn manifest_id_of(name: &str) -> (id: Option<u32>)
    ensures
        id == manifest_id(name.spec_bytes()),
{
    let bytes = name.as_bytes();
    let len = bytes.len();
    if len < 16 {
        return None;
    }
    let prefix: [u8; 12] = [0x61, 0x70, 0x70, 0x6d, 0x61, 0x6e, 0x69, 0x66, 0x65, 0x73, 0x74, 0x5f];
    let suffix: [u8; 4] = [0x2e, 0x61, 0x63, 0x66];
    let mut i: usize = 0;
    while i < 12
        invariant
            i <= 12,
            len == bytes.len(),
            len >= 16,
            bytes@ == name.spec_bytes(),
            prefix@ == manifest_prefix(),
            forall|k: int| 0 <= k < i ==> bytes@[k] == prefix@[k],
        decreases 12 - i,
    {
        if bytes[i] != prefix[i] {
            assert(bytes@.take(12)[i as int] != manifest_prefix()[i as int]);
            return None;
        }
        i += 1;
    }
    assert(bytes@.take(12) =~= manifest_prefix());
    let mut j: usize = 0;
    while j < 4
        invariant
            j <= 4,
            len == bytes.len(),
            len >= 16,
            bytes@ == name.spec_bytes(),
            bytes@.take(12) == manifest_prefix(),
            suffix@ == manifest_suffix(),
            forall|k: int| 0 <= k < j ==> bytes@[len - 4 + k] == suffix@[k],
        decreases 4 - j,
    {
        if bytes[len - 4 + j] != suffix[j] {
            assert(bytes@.skip(len - 4)[j as int] != manifest_suffix()[j as int]);
            return None;
        }
        j += 1;
    }
    assert(bytes@.skip(len - 4) =~= manifest_suffix());
    let digits = slice_subrange(bytes, 12, len - 4);
    assert(digits@.skip(0) =~= digits@);
    match parse_digits(digits, 0, 0xffff_ffff) {
        Some(id) => Some(id as u32),
        None => None,
    }
}

/// The bytes of the name of the manifest file of an app.
pub open spec fn manifest_name_of(app_id: u32) -> Seq<u8> {
    manifest_prefix() + decimal_digits(app_id as nat) + manifest_suffix()
}

/// The name of the manifest file of an app names that app.
pub proof fn lemma_manifest_name(app_id: u32)
    ensures
        manifest_id(manifest_name_of(app_id)) == Some(app_id),
        all_ascii(manifest_name_of(app_id)),
{
    let name = manifest_name_of(app_id);
    let digits = decimal_digits(app_id as nat);
    lemma_decimal_digits(app_id as nat);
    assert(name.take(12) =~= manifest_prefix());
    assert(name.skip(name.len() - 4) =~= manifest_suffix());
    assert(name.subrange(12, name.len() - 4) =~= digits);
    assert forall|i: int| 0 <= i < name.len() implies #[trigger] name[i] < 0x80 by {
        if 12 <= i < 12 + digits.len() {
            assert(name[i] == digits[i - 12]);
        }
    }
}

/// Makes the name of the manifest file of an app.
pub fn manifest_name(app_id: u32) -> (name: String)
    ensures
        name@ == manifest_file(app_id),
        encode_utf8(name@) == manifest_name_of(app_id),
        manifest_id(encode_utf8(name@)) == Some(app_id),
{
    let prefix: [u8; 12] = [0x61, 0x70, 0x70, 0x6d, 0x61, 0x6e, 0x69, 0x66, 0x65, 0x73, 0x74, 0x5f];
    let suffix: [u8; 4] = [0x2e, 0x61, 0x63, 0x66];
    let mut bytes: Vec<u8> = Vec::new();
    append_bytes(&mut bytes, prefix.as_slice());
    push_decimal(&mut bytes, app_id as u64);
    append_bytes(&mut bytes, suffix.as_slice());
    proof {
        lemma_manifest_name(app_id);
        assert(prefix@ =~= manifest_prefix());
        assert(suffix@ =~= manifest_suffix());
        assert(bytes@ =~= manifest_name_of(app_id));
    }
    ascii_text(&bytes)
}

/// An app is among the apps that a directory holds a manifest of exactly if
/// one of its entries is named as the manifest of that app.
pub proof fn lemma_manifest_ids(entries: Seq<DirEntry>, app_id: u32)
    ensures
        manifest_ids(entries).contains(app_id) <==> exists|i: int|
            0 <= i < entries.len() && entry_id(#[trigger] entries[i]) == Some(app_id),
    decreases entries.len(),
{
    if entries.len() > 0 {
        let front = entries.drop_last();
        lemma_manifest_ids(front, app_id);
        let ids = manifest_ids(entries);
        let before = manifest_ids(front);
        if ids.contains(app_id) {
            let k = choose|k: int| 0 <= k < ids.len() && ids[k] == app_id;
            if k < before.len() {
                assert(before[k] == app_id);
                let i = choose|i: int|
                    0 <= i < front.len() && entry_id(#[trigger] front[i]) == Some(app_id);
                assert(entries[i] == front[i]);
            } else {
                assert(entry_id(entries[entries.len() - 1]) == Some(app_id));
            }
        }
        if exists|i: int| 0 <= i < entries.len() && entry_id(#[trigger] entries[i]) == Some(app_id) {
            let i = choose|i: int|
                0 <= i < entries.len() && entry_id(#[trigger] entries[i]) == Some(app_id);
            if i < front.len() {
                assert(front[i] == entries[i]);
                let k = choose|k: int| 0 <= k < before.len() && before[k] == app_id;
                assert(ids[k] == app_id);
            } else if before.contains(app_id) {
                let k = choose|k: int| 0 <= k < before.len() && before[k] == app_id;
                assert(ids[k] == app_id);
            } else {
                assert(ids[ids.len() - 1] == app_id);
            }
        }
    }
}

/// The apps that a directory holds a manifest of are a set: none of them
/// is listed twice, however many of the directory's entries name it.
pub proof fn lemma_manifest_ids_are_unique(entries: Seq<DirEntry>)
    ensures
        manifest_ids(entries).no_duplicates(),
    decreases entries.len(),
{
    if entries.len() > 0 {
        lemma_manifest_ids_are_unique(entries.drop_last());
    }
}

/// Whether `outcome` is what decoding the manifest file at `path` comes
/// to. A file that is not there, or cannot be read as text, gives the
/// failure of the read. Else, where the parser gets through the text, the
/// answer is the fault of the document, if it has one, and else its app;
/// where it does not, the answer is the parser's failure. Each failure
/// comes with the path.
pub open spec fn manifest_outcome(
    path: Seq<char>,
    file: Option<Item>,
    outcome: Result<App, Error>,
) -> bool {
    match text_in(file) {
        Err(kind) => outcome matches Err(Error::Io { inner, path: at }) && fails_as(
            file,
            kind,
            inner,
        ) && at@ == path,
        Ok(text) => match outcome {
            Ok(app) => app.decoded_from_text(text),
            Err(Error::Parse { kind, error, path: at }) => kind == ParseErrorKind::App && at@
                == path && manifest_failure(text, error),
            Err(_) => false,
        },
    }
}

impl App {
    /// Decodes the manifest file at `manifest`.
    pub fn new(manifest: &str, file: Option<&Item>) -> (decoded: Result<App, Error>)
        ensures
            manifest_outcome(manifest@, held(file), decoded),
    {
        let contents = match read_text(file) {
            Ok(contents) => contents,
            Err(io) => return Err(Error::io(io, manifest)),
        };
        match App::from_manifest_str(contents) {
            Ok(app) => Ok(app),
            Err(error) => Err(Error::parse(ParseErrorKind::App, error, manifest)),
        }
    }
}

/// Whether `outcome` is what asking for an app comes to in a `steamapps`
/// directory at `dir` that holds `entries`: nothing where no entry of the
/// directory is named as a manifest of the app, else what decoding the
/// file `appmanifest_<id>.acf` of the directory comes to.
pub open spec fn app_outcome(
    dir: Seq<char>,
    entries: Seq<DirEntry>,
    app_id: u32,
    outcome: Option<Result<App, Error>>,
) -> bool {
    if manifest_ids(entries).contains(app_id) {
        outcome matches Some(found) && manifest_outcome(
            joined(dir, manifest_file(app_id)),
            child(entries, manifest_file(app_id)),
            found,
        )
    } else {
        outcome is None
    }
}

/// Whether an id is among some ids.
pub fn contains_id(ids: &Vec<u32>, id: u32) -> (found: bool)
    ensures
        found == ids@.contains(id),
{
    let mut i: usize = 0;
    while i < ids.len()
        invariant
            i <= ids.len(),
            forall|k: int| 0 <= k < i ==> ids@[k] != id,
        decreases ids.len() - i,
    {
        if ids[i] == id {
            return true;
        }
        i += 1;
    }
    false
}

/// A library folder: a directory whose `steamapps` holds one manifest for
/// each app that is installed in it.
#[derive(Debug)]
pub struct Library<'a> {
    path: String,
    apps: Vec<u32>,
    steamapps: &'a Vec<DirEntry>,
}

impl<'a> Clone for Library<'a> {
    fn clone(&self) -> (copy: Self)
        ensures
            copy.root() == self.root(),
            copy.steamapps() == self.steamapps(),
    {
        proof {
            use_type_invariant(self);
        }
        let apps = self.apps.clone();
        assert(apps@ =~= self.apps@);
        Library { path: self.path.clone(), apps, steamapps: self.steamapps }
    }
}

impl<'a> Library<'a> {
    #[verifier::type_invariant]
    spec fn well_formed(self) -> bool {
        &&& self.apps@ == manifest_ids(self.steamapps@)
        &&& self.apps@.no_duplicates()
    }

    /// The path of the library folder.
    pub closed spec fn root(self) -> Seq<char> {
        self.path@
    }

    /// What the `steamapps` directory of the library folder holds.
    pub closed spec fn steamapps(self) -> Seq<DirEntry> {
        self.steamapps@
    }

    /// The apps of the library: those that its `steamapps` directory holds
    /// a manifest of, whatever any listing says.
    pub open spec fn ids(self) -> Seq<u32> {
        manifest_ids(self.steamapps())
    }

    /// The path of the `steamapps` directory.
    pub open spec fn apps_dir(self) -> Seq<char> {
        joined(self.root(), "steamapps"@)
    }

    /// Whether `outcome` is what asking the library for an app comes to.
    pub open spec fn answers(self, app_id: u32, outcome: Option<Result<App, Error>>) -> bool {
        app_outcome(self.apps_dir(), self.steamapps(), app_id, outcome)
    }

    /// Whether `made` is what making a library of the directory at `path`
    /// comes to: the failure to list its `steamapps`, or the library of
    /// what `steamapps` holds.
    pub open spec fn made_from(path: Seq<char>, files: Snapshot, made: Result<Library<'a>, Error>) -> bool {
        match listing(below(files.at(path), "steamapps"@)) {
            Err(kind) => made matches Err(Error::Io { inner, path: at }) && fails_as(
                below(files.at(path), "steamapps"@),
                kind,
                inner,
            ) && at@ == joined(path, "steamapps"@),
            Ok(entries) => made matches Ok(library) && library.root() == path
                && library.steamapps() == entries,
        }
    }

    /// Makes a library of the directory at `path`, from what its
    /// `steamapps` directory holds.
    pub fn from_dir(path: &str, files: &'a Snapshot) -> (made: Result<Library<'a>, Error>)
        ensures
            Library::made_from(path@, *files, made),
    {
        let steamapps = match list_dir(find_below(files.root(path), "steamapps")) {
            Ok(steamapps) => steamapps,
            Err(io) => {
                let at = join(path, "steamapps");
                return Err(Error::io(io, at.as_str()));
            },
        };
        let mut apps: Vec<u32> = Vec::new();
        let mut i: usize = 0;
        while i < steamapps.len()
            invariant
                i <= steamapps.len(),
                apps@ == manifest_ids(steamapps@.take(i as int)),
            decreases steamapps.len() - i,
        {
            proof {
                assert(steamapps@.take(i + 1).drop_last() =~= steamapps@.take(i as int));
            }
            match manifest_id_of(steamapps[i].name.as_str()) {
                Some(id) => {
                    if !contains_id(&apps, id) {
                        apps.push(id);
                    }
                },
                None => {},
            }
            assert(apps@ =~= manifest_ids(steamapps@.take(i + 1)));
            i += 1;
        }
        assert(steamapps@.take(i as int) =~= steamapps@);
        proof {
            lemma_manifest_ids_are_unique(steamapps@);
        }
        Ok(Library { path: path.to_owned(), apps, steamapps })
    }

    /// The path of the library folder.
    pub fn path(&self) -> (path: &str)
        ensures
            path@ == self.root(),
    {
        self.path.as_str()
    }

    /// The apps of the library, each of them once.
    pub fn app_ids(&self) -> (ids: &Vec<u32>)
        ensures
            ids@ == self.ids(),
            ids@.no_duplicates(),
    {
        proof {
            use_type_invariant(self);
        }
        &self.apps
    }

    /// Decodes the manifest of an app: the file `appmanifest_<id>.acf` in
    /// the library's `steamapps`. The answer is `None` where the app is not
    /// in this library.
    pub fn app(&self, app_id: u32) -> (found: Option<Result<App, Error>>)
        ensures
            self.answers(app_id, found),
            found is None <==> !self.ids().contains(app_id),
    {
        proof {
            use_type_invariant(self);
        }
        if !contains_id(&self.apps, app_id) {
            return None;
        }
        let dir = join(self.path.as_str(), "steamapps");
        let name = manifest_name(app_id);
        let manifest_path = join(dir.as_str(), name.as_str());
        Some(App::new(manifest_path.as_str(), find_child(self.steamapps, name.as_str())))
    }

    /// Starts a walk over the apps of the library, in the order of
    /// [`Library::app_ids`].
    pub fn apps<'l>(&'l self) -> (walk: AppIter<'l, 'a>)
        ensures
            walk.library() == *self,
            walk.remaining() == self.ids(),
    {
        assert(self.ids().skip(0) =~= self.ids());
        AppIter { library: self, at: 0 }
    }

    /// The directory that the app is installed in, by its manifest:
    /// `steamapps/common/` and the app's install directory, below the
    /// library folder. Nothing is looked up.
    pub fn resolve_app_dir(&self, app: &App) -> (dir: String)
        ensures
            dir@ == joined(joined(self.apps_dir(), "common"@), app.install_dir@),
    {
        let steamapps = join(self.path.as_str(), "steamapps");
        let common = join(steamapps.as_str(), "common");
        join(common.as_str(), app.install_dir.as_str())
    }

    /// Whether the directory that the app is installed in, by its manifest,
    /// is there.
    pub fn has_app_dir(&self, app: &App) -> (there: bool)
        ensures
            there == is_dir(below(child(self.steamapps(), "common"@), app.install_dir@)),
    {
        match find_below(find_child(self.steamapps, "common"), app.install_dir.as_str()) {
            Some(Item::Dir(_)) => true,
            _ => false,
        }
    }
}

/// A walk over the library folders of an installation. Each call of
/// [`LibraryIter::next`] makes the library of one folder.
#[derive(Debug)]
pub struct LibraryIter<'a> {
    paths: Vec<String>,
    at: usize,
    files: &'a Snapshot,
}

impl<'a> LibraryIter<'a> {
    #[verifier::type_invariant]
    spec fn well_formed(self) -> bool {
        self.at <= self.paths.len()
    }

    /// The snapshot that the libraries are made from.
    pub closed spec fn files(self) -> Snapshot {
        *self.files
    }

    /// The paths of the folders that the walk has yet to come to, next one
    /// first.
    pub closed spec fn remaining(self) -> Seq<Seq<char>> {
        texts(self.paths@).skip(self.at as int)
    }

    /// Starts a walk over the folders at `paths`.
    pub fn new(paths: Vec<String>, files: &'a Snapshot) -> (walk: LibraryIter<'a>)
        ensures
            walk.files() == *files,
            walk.remaining() == texts(paths@),
    {
        assert(texts(paths@).skip(0) =~= texts(paths@));
        LibraryIter { paths, at: 0, files }
    }

    /// Makes the library of the next folder. A folder that cannot be read
    /// fails alone: the walk goes on after it.
    pub fn next(&mut self) -> (next: Option<Result<Library<'a>, Error>>)
        ensures
            final(self).files() == old(self).files(),
            old(self).remaining().len() == 0 ==> next is None && final(self).remaining().len() == 0,
            old(self).remaining().len() > 0 ==> final(self).remaining() == old(
                self,
            ).remaining().drop_first() && (next matches Some(made) && Library::made_from(
                old(self).remaining()[0],
                old(self).files(),
                made,
            )),
    {
        proof {
            use_type_invariant(&*self);
        }
        if self.at >= self.paths.len() {
            return None;
        }
        let made = Library::from_dir(self.paths[self.at].as_str(), self.files);
        assert(texts(self.paths@).skip(self.at as int).drop_first() =~= texts(self.paths@).skip(
            self.at as int + 1,
        ));
        self.at = self.at + 1;
        Some(made)
    }

    /// How many folders the walk has yet to come to.
    pub fn len(&self) -> (len: usize)
        ensures
            len == self.remaining().len(),
    {
        proof {
            use_type_invariant(self);
        }
        self.paths.len() - self.at
    }
}

/// A walk over the apps of a library. Each call of [`AppIter::next`]
/// decodes the manifest of one app.
#[derive(Debug)]
pub struct AppIter<'l, 'a> {
    library: &'l Library<'a>,
    at: usize,
}

impl<'l, 'a> AppIter<'l, 'a> {
    #[verifier::type_invariant]
    spec fn well_formed(self) -> bool {
        self.at <= self.library.ids().len()
    }

    /// The library that is walked over.
    pub closed spec fn library(self) -> Library<'a> {
        *self.library
    }

    /// The apps that the walk has yet to come to, next one first.
    pub closed spec fn remaining(self) -> Seq<u32> {
        self.library.ids().skip(self.at as int)
    }

    /// Decodes the manifest of the next app. An app that fails to decode
    /// fails alone: the walk goes on after it.
    pub fn next(&mut self) -> (next: Option<Result<App, Error>>)
        ensures
            final(self).library() == old(self).library(),
            old(self).remaining().len() == 0 ==> next is None && final(self).remaining().len() == 0,
            old(self).remaining().len() > 0 ==> next is Some && old(self).library().answers(
                old(self).remaining()[0],
                next,
            ) && final(self).remaining() == old(self).remaining().drop_first(),
    {
        proof {
            use_type_invariant(&*self);
        }
        let ids = self.library.app_ids();
        if self.at >= ids.len() {
            return None;
        }
        let app_id = ids[self.at];
        assert(self.library.ids().contains(app_id));
        assert(self.library.ids().skip(self.at as int).drop_first() =~= self.library.ids().skip(
            self.at as int + 1,
        ));
        self.at = self.at + 1;
        self.library.app(app_id)
    }
}

/// Whether an app is in a library is for the library's `steamapps`
/// directory to say: the app is there exactly if an entry of the directory
/// is named as a manifest of the app.
pub proof fn lemma_directory_decides(library: Library<'_>, app_id: u32, found: Option<Result<App, Error>>)
    requires
        library.answers(app_id, found),
    ensures
        found is None <==> forall|i: int|
            0 <= i < library.steamapps().len() ==> entry_id(#[trigger] library.steamapps()[i])
                != Some(app_id),
        found is Some <==> library.ids().contains(app_id),
{
    lemma_manifest_ids(library.steamapps(), app_id);
}

} // verus!
