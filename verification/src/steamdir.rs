//! The installation as a whole: its library folders, the apps in them, and
//! the shortcuts of its users.

use std::collections::HashMap;

use vstd::prelude::*;
use vstd::string::*;

use crate::app::App;
use crate::config::{parse_compat_tools, tools_outcome, CompatTool};
use crate::error::{Error, ValidationError};
use crate::files::{below, find_below, is_dir, listing, Item, Snapshot};
use crate::library::{
    app_outcome, folders_in, listing_failure, manifest_ids, parse_library_folders,
    parse_library_paths, Library, LibraryIter,
};
use crate::locate::{fails_with, locate_steam_dir, located, Environment};
use crate::shortcut;
use crate::text::{join, joined, texts};

verus! {

/// A Steam installation: the directory it is in, and what was read of the
/// disk.
#[derive(Debug, Clone)]
pub struct SteamDir<'a> {
    path: String,
    files: &'a Snapshot,
}

/// Whether the folder at `path` can be made a library of and holds the
/// app.
pub open spec fn holds_app(files: Snapshot, path: Seq<char>, app_id: u32) -> bool {
    match listing(below(files.at(path), "steamapps"@)) {
        Ok(entries) => manifest_ids(entries).contains(app_id),
        Err(_) => false,
    }
}

/// The index of the first folder from `from` on that holds the app.
pub open spec fn holder(files: Snapshot, paths: Seq<Seq<char>>, app_id: u32, from: int) -> Option<
    int,
>
    decreases paths.len() - from,
{
    if from < 0 || from >= paths.len() {
        None
    } else if holds_app(files, paths[from], app_id) {
        Some(from)
    } else {
        holder(files, paths, app_id, from + 1)
    }
}

impl<'a> SteamDir<'a> {
    /// The path of the installation.
    pub closed spec fn root(self) -> Seq<char> {
        self.path@
    }

    /// What was read of the disk.
    pub closed spec fn files(self) -> Snapshot {
        *self.files
    }

    /// The path of the file that lists the library folders.
    pub open spec fn listing_path(self) -> Seq<char> {
        joined(joined(self.root(), "steamapps"@), "libraryfolders.vdf"@)
    }

    /// What stands at the path of the file that lists the library folders.
    pub open spec fn listing_file(self) -> Option<Item> {
        below(below(self.files().at(self.root()), "steamapps"@), "libraryfolders.vdf"@)
    }

    /// The library folders of the installation, where the file that lists
    /// them does so.
    pub open spec fn folders(self) -> Option<Seq<Seq<char>>> {
        folders_in(self.listing_file())
    }

    /// Whether `error` is the failure of the file that lists the library
    /// folders to do so.
    pub open spec fn fails_to_list(self, error: Error) -> bool {
        listing_failure(self.listing_path(), self.listing_file(), error)
    }

    /// Takes the directory at `path` for a Steam installation. It must be
    /// a directory; nothing more is asked of it.
    pub fn from_dir(path: &str, files: &'a Snapshot) -> (made: Result<SteamDir<'a>, Error>)
        ensures
            is_dir(files.at(path@)) ==> (made matches Ok(dir) && dir.root() == path@ && dir.files()
                == *files),
            !is_dir(files.at(path@)) ==> (made matches Err(Error::InvalidSteamDir(_))),
    {
        match files.root(path) {
            Some(Item::Dir(_)) => Ok(SteamDir { path: path.to_owned(), files }),
            _ => Err(Error::validation(ValidationError::missing_dir())),
        }
    }

    /// Locates the installation of the environment: the first of those
    /// that are located, which must be a directory.
    pub fn locate(env: &Environment, files: &'a Snapshot) -> (made: Result<SteamDir<'a>, Error>)
        ensures
            match located(*env) {
                Err(cause) => made matches Err(error) && fails_with(error, cause),
                Ok(places) => if places.len() > 0 && is_dir(files.at(places[0].0)) {
                    made matches Ok(dir) && dir.root() == places[0].0 && dir.files() == *files
                } else {
                    made matches Err(Error::InvalidSteamDir(_))
                },
            },
    {
        let paths = locate_steam_dir(env)?;
        if paths.len() == 0 {
            return Err(Error::validation(ValidationError::missing_dir()));
        }
        SteamDir::from_dir(paths[0].0.as_str(), files)
    }

    /// Locates all the installations of the environment. Each of those
    /// that are located must be a directory.
    pub fn locate_multiple(env: &Environment, files: &'a Snapshot) -> (made: Result<
        Vec<SteamDir<'a>>,
        Error,
    >)
        ensures
            match located(*env) {
                Err(cause) => made matches Err(error) && fails_with(error, cause),
                Ok(places) => if forall|i: int|
                    0 <= i < places.len() ==> is_dir(files.at((#[trigger] places[i]).0)) {
                    made matches Ok(dirs) && dirs.len() == places.len() && forall|i: int|
                        0 <= i < places.len() ==> (#[trigger] dirs[i]).root() == places[i].0
                            && dirs[i].files() == *files
                } else {
                    made matches Err(Error::InvalidSteamDir(_))
                },
            },
    {
        let paths = locate_steam_dir(env)?;
        let ghost places = located(*env)->Ok_0;
        let mut dirs: Vec<SteamDir<'a>> = Vec::new();
        let mut i: usize = 0;
        while i < paths.len()
            invariant
                i <= paths.len(),
                located(*env) == Ok::<Seq<crate::locate::Place>, crate::error::LocateError>(places),
                crate::locate::place_texts(paths@) == places,
                dirs.len() == i,
                forall|k: int| 0 <= k < i ==> is_dir(files.at((#[trigger] places[k]).0)),
                forall|k: int|
                    0 <= k < i ==> (#[trigger] dirs[k]).root() == places[k].0 && dirs[k].files()
                        == *files,
            decreases paths.len() - i,
        {
            assert(places[i as int].0 == paths[i as int].0@);
            match SteamDir::from_dir(paths[i].0.as_str(), files) {
                Ok(dir) => dirs.push(dir),
                Err(error) => return Err(error),
            }
            i += 1;
        }
        Ok(dirs)
    }

    /// The path of the installation.
    pub fn path(&self) -> (path: &str)
        ensures
            path@ == self.root(),
    {
        self.path.as_str()
    }

    /// What was read of the disk.
    pub fn snapshot(&self) -> (files: &'a Snapshot)
        ensures
            *files == self.files(),
    {
        self.files
    }

    /// Resolves the library folders of the installation from the file that
    /// lists them, in the order in which the parsed document holds them.
    pub fn library_paths(&self) -> (resolved: Result<Vec<String>, Error>)
        ensures
            match resolved {
                Ok(found) => self.folders() == Some(texts(found@)),
                Err(error) => self.fails_to_list(error),
            },
    {
        let steamapps = join(self.path.as_str(), "steamapps");
        let listing = join(steamapps.as_str(), "libraryfolders.vdf");
        let file = find_below(
            find_below(self.files.root(self.path.as_str()), "steamapps"),
            "libraryfolders.vdf",
        );
        parse_library_paths(listing.as_str(), file)
    }

    /// Whether `found` is what looking for an app in the folders at `paths`
    /// comes to: nothing where no folder holds the app, else what the first
    /// folder that holds it answers, the app together with the library.
    pub open spec fn finds(
        self,
        paths: Seq<Seq<char>>,
        app_id: u32,
        found: Result<Option<(App, Library<'a>)>, Error>,
    ) -> bool {
        match holder(self.files(), paths, app_id, 0) {
            None => found matches Ok(None),
            Some(at) => {
                let entries = listing(below(self.files().at(paths[at]), "steamapps"@))->Ok_0;
                let dir = joined(paths[at], "steamapps"@);
                match found {
                    Ok(Some((app, library))) => library.root() == paths[at] && library.steamapps()
                        == entries && app_outcome(dir, entries, app_id, Some(Ok(app))),
                    Err(error) => app_outcome(dir, entries, app_id, Some(Err(error))),
                    Ok(None) => false,
                }
            },
        }
    }

    /// Looks for an app in the libraries of the installation, in their
    /// order. A folder of which no library can be made is passed over. The
    /// search fails where the library folders cannot be resolved, and where
    /// the manifest of the app, in the first folder that holds the app,
    /// fails to decode.
    pub fn find_app(&self, app_id: u32) -> (found: Result<Option<(App, Library<'a>)>, Error>)
        ensures
            (found matches Err(error) && self.fails_to_list(error)) || (self.folders() matches Some(
                paths,
            ) && self.finds(paths, app_id, found)),
    {
        let mut libraries = match self.libraries() {
            Ok(libraries) => libraries,
            Err(error) => return Err(error),
        };
        let ghost paths = self.folders()->0;
        let ghost mut at: int = 0;
        assert(paths.skip(0) =~= paths);
        loop
            invariant
                0 <= at <= paths.len(),
                self.folders() == Some(paths),
                libraries.files() == self.files(),
                libraries.remaining() == paths.skip(at),
                holder(self.files(), paths, app_id, 0) == holder(self.files(), paths, app_id, at),
            decreases libraries.remaining().len(),
        {
            proof {
                if at < paths.len() {
                    assert(paths.skip(at).drop_first() =~= paths.skip(at + 1));
                }
            }
            match libraries.next() {
                None => {
                    return Ok(None);
                },
                Some(Err(_)) => {},
                Some(Ok(library)) => {
                    match library.app(app_id) {
                        None => {},
                        Some(Ok(app)) => {
                            return Ok(Some((app, library)));
                        },
                        Some(Err(error)) => {
                            return Err(error);
                        },
                    }
                },
            }
            proof {
                at = at + 1;
            }
        }
    }

    /// Reads which compatibility tool each app is run with, out of the
    /// client's settings at `config/config.vdf`.
    pub fn compat_tool_mapping(&self) -> (tools: Result<HashMap<u32, CompatTool>, Error>)
        ensures
            tools_outcome(
                joined(joined(self.root(), "config"@), "config.vdf"@),
                below(below(self.files().at(self.root()), "config"@), "config.vdf"@),
                tools,
            ),
    {
        let config = join(self.path.as_str(), "config");
        let path = join(config.as_str(), "config.vdf");
        let file = find_below(find_below(self.files.root(self.path.as_str()), "config"), "config.vdf");
        parse_compat_tools(path.as_str(), file)
    }

    /// Starts a walk over the shortcuts of all users of the installation.
    /// It fails as a whole where `userdata` is not there, is a file, or
    /// cannot be read; after that each user's file is read, or fails,
    /// alone.
    pub fn shortcuts(&self) -> (walk: Result<shortcut::Iter<'a>, Error>)
        ensures
            shortcut::Iter::made_from(self.root(), self.files().at(self.root()), walk),
    {
        shortcut::Iter::new(self.path.as_str(), self.files.root(self.path.as_str()))
    }

    /// Starts a walk over the libraries of the installation. It fails as a
    /// whole where the library folders cannot be resolved; after that each
    /// library is made, or fails, alone.
    pub fn libraries(&self) -> (walk: Result<LibraryIter<'a>, Error>)
        ensures
            match walk {
                Ok(libraries) => libraries.files() == self.files() && self.folders() == Some(
                    libraries.remaining(),
                ),
                Err(error) => self.fails_to_list(error),
            },
    {
        let steamapps = join(self.path.as_str(), "steamapps");
        let listing = join(steamapps.as_str(), "libraryfolders.vdf");
        let file = find_below(
            find_below(self.files.root(self.path.as_str()), "steamapps"),
            "libraryfolders.vdf",
        );
        parse_library_folders(listing.as_str(), file, self.files)
    }
}

} // verus!
