//! Locating the installation: which directories to look at on each
//! platform, and which of those that are there to take.
//!
//! Looking at the disk, the registry and the process environment is the
//! caller's part. What was found is handed over as an [`Environment`].

use vstd::prelude::*;
use vstd::string::*;

use crate::error::{Error, IoError, LocateError};
use crate::text::{join, joined, str_eq};

verus! {

/// How an installation was set up.
#[derive(Debug, Clone, Copy, PartialEq, Eq, Structural)]
pub enum InstallationType {
    LinuxStandard,
    LinuxFlatpak,
    LinuxSnap,
    MacosStandard,
    WindowsStandard,
}

impl Default for InstallationType {
    fn default() -> (kind: Self)
        ensures
            kind == InstallationType::WindowsStandard,
    {
        InstallationType::WindowsStandard
    }
}

/// The platforms that an installation is looked for on in different ways.
#[derive(Debug, Clone, Copy, PartialEq, Eq, Structural)]
pub enum Platform {
    Linux,
    Macos,
    Windows,
    /// Any other platform: no installation is looked for.
    Other,
}

/// A directory that is there, and where it leads if it is a link.
#[derive(Debug, Clone, PartialEq, Eq)]
pub struct Probe {
    pub path: String,
    pub link: Option<String>,
}

/// What locating an installation goes by.
#[derive(Debug)]
pub struct Environment {
    pub platform: Platform,
    /// The user's home directory, if it is known.
    pub home: Option<String>,
    /// What the variable `SNAP_USER_DATA` holds, if it is set.
    pub snap_user_data: Option<String>,
    /// What the registry holds for the installation's path, or why it
    /// could not be read.
    pub install_path: Result<String, IoError>,
    /// The directories that are there, among those that were looked at.
    pub dirs: Vec<Probe>,
}

/// A place where an installation may be, and how it would be set up.
pub type Candidate = (String, InstallationType);

/// A place where an installation may be, as a text, and how it would be
/// set up.
pub type Place = (Seq<char>, InstallationType);

/// The index of the first probe from `from` on that is of the path.
pub open spec fn probe_index(dirs: Seq<Probe>, path: Seq<char>, from: int) -> Option<int>
    decreases dirs.len() - from,
{
    if from < 0 || from >= dirs.len() {
        None
    } else if dirs[from].path@ == path {
        Some(from)
    } else {
        probe_index(dirs, path, from + 1)
    }
}

/// Whether a directory is there at the path.
pub open spec fn is_there(dirs: Seq<Probe>, path: Seq<char>) -> bool {
    probe_index(dirs, path, 0) is Some
}

/// Where the directory at the path really is: where its link leads, or the
/// path itself if it is no link.
pub open spec fn target(dirs: Seq<Probe>, path: Seq<char>) -> Seq<char> {
    match probe_index(dirs, path, 0) {
        Some(i) => match dirs[i].link {
            Some(link) => link@,
            None => path,
        },
        None => path,
    }
}

/// Whether a directory that is there at one of the first `upto` places
/// really is the directory `origin`.
pub open spec fn found_before(places: Seq<Place>, dirs: Seq<Probe>, upto: int, origin: Seq<char>) -> bool {
    exists|j: int|
        0 <= j < upto && is_there(dirs, (#[trigger] places[j]).0) && target(dirs, places[j].0)
            == origin
}

/// Whether the place at index `at` is taken: a directory is there, and no
/// directory at an earlier place really is the same directory.
pub open spec fn is_taken(places: Seq<Place>, dirs: Seq<Probe>, at: int) -> bool {
    is_there(dirs, places[at].0) && !found_before(places, dirs, at, target(dirs, places[at].0))
}

/// Whether a text is among those of a run of strings.
pub open spec fn has_text(texts: Seq<String>, text: Seq<char>) -> bool {
    exists|i: int| 0 <= i < texts.len() && (#[trigger] texts[i])@ == text
}

/// The places that are taken, in their order.
pub open spec fn taken(places: Seq<Place>, dirs: Seq<Probe>) -> Seq<Place>
    decreases places.len(),
{
    if places.len() == 0 {
        Seq::empty()
    } else if is_taken(places, dirs, places.len() - 1) {
        taken(places.drop_last(), dirs).push(places.last())
    } else {
        taken(places.drop_last(), dirs)
    }
}

/// The places and kinds of a run of candidates, as texts.
pub open spec fn place_texts(places: Seq<Candidate>) -> Seq<Place> {
    places.map_values(|place: Candidate| (place.0@, place.1))
}

/// Where the data of snap packages is: what `SNAP_USER_DATA` holds, or
/// `snap` in the home directory.
pub open spec fn snap_dir(home: Seq<char>, snap_user_data: Option<String>) -> Seq<char> {
    match snap_user_data {
        Some(dir) => dir@,
        None => joined(home, "snap"@),
    }
}

/// The places where an installation may be on Linux, in the order of
/// preference: those of a Flatpak package, the standard ones, those of a
/// snap package.
pub open spec fn linux_places(home: Seq<char>, snap: Seq<char>) -> Seq<
    (Seq<char>, InstallationType),
> {
    seq![
        (
            joined(home, ".var/app/com.valvesoftware.Steam/.local/share/Steam"@),
            InstallationType::LinuxFlatpak,
        ),
        (
            joined(home, ".var/app/com.valvesoftware.Steam/.steam/steam"@),
            InstallationType::LinuxFlatpak,
        ),
        (
            joined(home, ".var/app/com.valvesoftware.Steam/.steam/root"@),
            InstallationType::LinuxFlatpak,
        ),
        (joined(home, ".local/share/Steam"@), InstallationType::LinuxStandard),
        (joined(home, ".steam/steam"@), InstallationType::LinuxStandard),
        (joined(home, ".steam/root"@), InstallationType::LinuxStandard),
        (joined(home, ".steam/debian-installation"@), InstallationType::LinuxStandard),
        (joined(snap, "steam/common/.local/share/Steam"@), InstallationType::LinuxSnap),
        (joined(snap, "steam/common/.steam/steam"@), InstallationType::LinuxSnap),
        (joined(snap, "steam/common/.steam/root"@), InstallationType::LinuxSnap),
    ]
}

/// Lists the places where an installation may be on Linux.
pub fn linux_candidates(home: &str, snap: &str) -> (places: Vec<Candidate>)
    ensures
        place_texts(places@) == linux_places(home@, snap@),
{
    let mut places: Vec<Candidate> = Vec::new();
    places.push(
        (
            join(home, ".var/app/com.valvesoftware.Steam/.local/share/Steam"),
            InstallationType::LinuxFlatpak,
        ),
    );
    places.push(
        (join(home, ".var/app/com.valvesoftware.Steam/.steam/steam"), InstallationType::LinuxFlatpak),
    );
    places.push(
        (join(home, ".var/app/com.valvesoftware.Steam/.steam/root"), InstallationType::LinuxFlatpak),
    );
    places.push((join(home, ".local/share/Steam"), InstallationType::LinuxStandard));
    places.push((join(home, ".steam/steam"), InstallationType::LinuxStandard));
    places.push((join(home, ".steam/root"), InstallationType::LinuxStandard));
    places.push((join(home, ".steam/debian-installation"), InstallationType::LinuxStandard));
    places.push((join(snap, "steam/common/.local/share/Steam"), InstallationType::LinuxSnap));
    places.push((join(snap, "steam/common/.steam/steam"), InstallationType::LinuxSnap));
    places.push((join(snap, "steam/common/.steam/root"), InstallationType::LinuxSnap));
    assert(place_texts(places@) =~= linux_places(home@, snap@));
    places
}

/// Finds the probe of a path.
pub fn find_probe<'a>(dirs: &'a Vec<Probe>, path: &str) -> (found: Option<&'a Probe>)
    ensures
        match probe_index(dirs@, path@, 0) {
            Some(i) => found == Some(&dirs@[i]),
            None => found is None,
        },
{
    let mut i: usize = 0;
    while i < dirs.len()
        invariant
            i <= dirs.len(),
            probe_index(dirs@, path@, 0) == probe_index(dirs@, path@, i as int),
        decreases dirs.len() - i,
    {
        if str_eq(dirs[i].path.as_str(), path) {
            return Some(&dirs[i]);
        }
        i += 1;
    }
    None
}

/// Whether a text is among those of a run of strings.
pub fn contains_text(texts: &Vec<String>, text: &str) -> (found: bool)
    ensures
        found == has_text(texts@, text@),
{
    let mut i: usize = 0;
    while i < texts.len()
        invariant
            i <= texts.len(),
            forall|k: int| 0 <= k < i ==> (#[trigger] texts[k])@ != text@,
        decreases texts.len() - i,
    {
        if str_eq(texts[i].as_str(), text) {
            return true;
        }
        i += 1;
    }
    false
}

/// Takes, of the places where an installation may be, those where a
/// directory is there, and of several that really are the same directory
/// the first.
pub fn take_unique(places: Vec<Candidate>, dirs: &Vec<Probe>) -> (found: Vec<Candidate>)
    ensures
        place_texts(found@) == taken(place_texts(places@), dirs@),
{
    let ghost all = place_texts(places@);
    let mut found: Vec<Candidate> = Vec::new();
    let mut seen: Vec<String> = Vec::new();
    let mut i: usize = 0;
    assert(place_texts(found@) =~= taken(all.take(0), dirs@));
    while i < places.len()
        invariant
            i <= places.len(),
            all == place_texts(places@),
            place_texts(found@) == taken(all.take(i as int), dirs@),
            forall|origin: Seq<char>|
                has_text(seen@, origin) <==> #[trigger] found_before(all, dirs@, i as int, origin),
        decreases places.len() - i,
    {
        let ghost upto = all.take(i as int + 1);
        let ghost before = seen@;
        let ghost kept = found@;
        proof {
            assert(upto.drop_last() =~= all.take(i as int));
            assert(upto.last() == all[i as int]);
            assert forall|origin: Seq<char>|
                found_before(upto, dirs@, i as int, origin) == found_before(
                    all,
                    dirs@,
                    i as int,
                    origin,
                ) by {
                if found_before(upto, dirs@, i as int, origin) {
                    let j = choose|j: int|
                        0 <= j < i && is_there(dirs@, (#[trigger] upto[j]).0) && target(
                            dirs@,
                            upto[j].0,
                        ) == origin;
                    assert(all[j] == upto[j]);
                }
                if found_before(all, dirs@, i as int, origin) {
                    let j = choose|j: int|
                        0 <= j < i && is_there(dirs@, (#[trigger] all[j]).0) && target(
                            dirs@,
                            all[j].0,
                        ) == origin;
                    assert(all[j] == upto[j]);
                }
            }
        }
        let place = &places[i];
        assert(all[i as int] == (place.0@, place.1));
        match find_probe(dirs, place.0.as_str()) {
            Some(probe) => {
                let actual: String = match &probe.link {
                    Some(link) => link.clone(),
                    None => place.0.clone(),
                };
                assert(actual@ == target(dirs@, place.0@));
                if !contains_text(&seen, actual.as_str()) {
                    found.push((place.0.clone(), place.1));
                    assert(place_texts(found@) =~= place_texts(kept).push(all[i as int]));
                }
                seen.push(actual);
                proof {
                    assert forall|origin: Seq<char>|
                        has_text(seen@, origin) <==> #[trigger] found_before(
                            all,
                            dirs@,
                            i as int + 1,
                            origin,
                        ) by {
                        if has_text(seen@, origin) {
                            let k = choose|k: int|
                                0 <= k < seen.len() && (#[trigger] seen[k])@ == origin;
                            if k < before.len() {
                                assert(before[k]@ == origin);
                                assert(has_text(before, origin));
                                assert(found_before(all, dirs@, i as int, origin));
                                let j = choose|j: int|
                                    0 <= j < i && is_there(dirs@, (#[trigger] all[j]).0) && target(
                                        dirs@,
                                        all[j].0,
                                    ) == origin;
                                assert(is_there(dirs@, all[j].0));
                            } else {
                                assert(is_there(dirs@, all[i as int].0));
                            }
                        }
                        if found_before(all, dirs@, i as int + 1, origin) {
                            let j = choose|j: int|
                                0 <= j < i + 1 && is_there(dirs@, (#[trigger] all[j]).0) && target(
                                    dirs@,
                                    all[j].0,
                                ) == origin;
                            if j < i {
                                assert(found_before(all, dirs@, i as int, origin));
                                assert(has_text(before, origin));
                                let k = choose|k: int|
                                    0 <= k < before.len() && (#[trigger] before[k])@ == origin;
                                assert(seen[k]@ == origin);
                            } else {
                                assert(seen[seen.len() - 1]@ == origin);
                            }
                        }
                    }
                }
            },
            None => {
                proof {
                    assert forall|origin: Seq<char>|
                        has_text(seen@, origin) <==> #[trigger] found_before(
                            all,
                            dirs@,
                            i as int + 1,
                            origin,
                        ) by {
                        if found_before(all, dirs@, i as int + 1, origin) {
                            let j = choose|j: int|
                                0 <= j < i + 1 && is_there(dirs@, (#[trigger] all[j]).0) && target(
                                    dirs@,
                                    all[j].0,
                                ) == origin;
                            assert(j < i);
                            assert(found_before(all, dirs@, i as int, origin));
                        }
                        if has_text(seen@, origin) {
                            assert(found_before(all, dirs@, i as int, origin));
                            let j = choose|j: int|
                                0 <= j < i && is_there(dirs@, (#[trigger] all[j]).0) && target(
                                    dirs@,
                                    all[j].0,
                                ) == origin;
                            assert(is_there(dirs@, all[j].0));
                        }
                    }
                }
            },
        }
        i += 1;
    }
    assert(all.take(i as int) =~= all);
    found
}

/// Whether `error` is the failure to locate an installation for the
/// reason `cause`.
pub open spec fn fails_with(error: Error, cause: LocateError) -> bool {
    error matches Error::FailedLocate(given) && given == cause
}

/// The places where an installation is located, or why none is.
///
/// On Linux those of the places of [`linux_places`] are taken where a
/// directory is there, and of several that really are the same directory
/// the first; the home directory must be known. On macOS it is the
/// directory of Steam among the user's application data, whether it is
/// there or not. On Windows it is the path that the registry holds. No
/// installation is looked for anywhere else.
pub open spec fn located(env: Environment) -> Result<Seq<Place>, LocateError> {
    match env.platform {
        Platform::Linux => match env.home {
            Some(home) => Ok(
                taken(linux_places(home@, snap_dir(home@, env.snap_user_data)), env.dirs@),
            ),
            None => Err(LocateError::no_home_error()),
        },
        Platform::Macos => match env.home {
            Some(home) => Ok(
                seq![
                    (
                        joined(home@, "Library/Application Support/Steam"@),
                        InstallationType::MacosStandard,
                    ),
                ],
            ),
            None => Err(LocateError::no_home_error()),
        },
        Platform::Windows => match env.install_path {
            Ok(path) => Ok(seq![(path@, InstallationType::WindowsStandard)]),
            Err(io) => Err(LocateError::registry_error(io)),
        },
        Platform::Other => Err(LocateError::Unsupported),
    }
}

/// Locates the installations of the environment, each with how it is set
/// up.
pub fn locate_steam_dir_helper(env: &Environment) -> (found: Result<Vec<Candidate>, Error>)
    ensures
        match located(*env) {
            Ok(places) => found matches Ok(taken) && place_texts(taken@) == places,
            Err(cause) => found matches Err(error) && fails_with(error, cause),
        },
{
    match env.platform {
        Platform::Linux => {
            let home = match &env.home {
                Some(home) => home,
                None => return Err(Error::locate(LocateError::no_home())),
            };
            let snap: String = match &env.snap_user_data {
                Some(dir) => dir.clone(),
                None => join(home.as_str(), "snap"),
            };
            let places = linux_candidates(home.as_str(), snap.as_str());
            Ok(take_unique(places, &env.dirs))
        },
        Platform::Macos => {
            let home = match &env.home {
                Some(home) => home,
                None => return Err(Error::locate(LocateError::no_home())),
            };
            let mut found: Vec<Candidate> = Vec::new();
            found.push(
                (
                    join(home.as_str(), "Library/Application Support/Steam"),
                    InstallationType::MacosStandard,
                ),
            );
            assert(place_texts(found@) =~= located(*env)->Ok_0);
            Ok(found)
        },
        Platform::Windows => {
            match &env.install_path {
                Ok(path) => {
                    let mut found: Vec<Candidate> = Vec::new();
                    found.push((path.clone(), InstallationType::WindowsStandard));
                    assert(place_texts(found@) =~= located(*env)->Ok_0);
                    Ok(found)
                },
                Err(io) => Err(Error::locate(LocateError::winreg(io.duplicate()))),
            }
        },
        Platform::Other => Err(Error::locate(LocateError::Unsupported)),
    }
}

/// Locates the installations of the environment.
pub fn locate_steam_dir(env: &Environment) -> (found: Result<Vec<Candidate>, Error>)
    ensures
        match located(*env) {
            Ok(places) => found matches Ok(taken) && place_texts(taken@) == places,
            Err(cause) => found matches Err(error) && fails_with(error, cause),
        },
{
    locate_steam_dir_helper(env)
}

} // verus!
