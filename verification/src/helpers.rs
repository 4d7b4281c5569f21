//! Made-up installations, for trying the engine out without a disk.

use vstd::prelude::*;
use vstd::string::*;
use vstd::utf8::*;

use vstd::slice::*;

use crate::files::{below, index_of, is_dir, listing, DirEntry, Item, Snapshot};
use crate::library::{
    entry_id, manifest_file, manifest_id, manifest_ids, manifest_name, manifest_name_of,
    manifest_prefix,
};
use crate::steamdir::{holder, holds_app, SteamDir};
use crate::text::{ascii_chars, decimal_digits, decimal_text, join, joined};

verus! {

/// A directory of its own for one made-up installation or library.
#[derive(Debug, Clone, PartialEq, Eq)]
pub struct TempDir {
    path: String,
}

impl TempDir {
    /// The path of the directory.
    pub closed spec fn place(self) -> Seq<char> {
        self.path@
    }

    /// The directory with the given number.
    pub fn new(serial: u64) -> (dir: TempDir)
        ensures
            dir.place() == TempDir::new_place(serial),
    {
        let mut path = "/tmp/steamlocate-test-".to_owned();
        let number = decimal_text(serial);
        path.append(number.as_str());
        TempDir { path }
    }

    /// The path of the directory.
    pub fn path(&self) -> (path: &str)
        ensures
            path@ == self.place(),
    {
        self.path.as_str()
    }
}

/// The apps that a made-up installation can be filled with.
#[derive(Debug, Clone, Copy, PartialEq, Eq, Structural)]
pub enum SampleApp {
    GarrysMod,
    GraveyardKeeper,
    Warframe,
    Resonite,
}

impl SampleApp {
    /// The id of the app.
    pub open spec fn spec_id(&self) -> u32 {
        match self {
            SampleApp::GarrysMod => 4_000,
            SampleApp::GraveyardKeeper => 599_140,
            SampleApp::Warframe => 230_410,
            SampleApp::Resonite => 2_519_830,
        }
    }

    /// The id of the app.
    #[verifier::when_used_as_spec(spec_id)]
    pub fn id(&self) -> (id: u32)
        ensures
            id == self.spec_id(),
    {
        self.data().0
    }

    /// The name of the directory that the app is installed in.
    pub fn install_dir(&self) -> (dir: &'static str)
        ensures
            dir@ == self.spec_data().1,
    {
        self.data().1
    }

    /// The text of the app's manifest.
    pub fn contents(&self) -> (contents: &'static str)
        ensures
            contents@ == self.spec_data().2,
    {
        self.data().2
    }

    /// The id of the app, the name of its directory and the text of its
    /// manifest.
    pub open spec fn spec_data(&self) -> (u32, Seq<char>, Seq<char>) {
        match self {
            SampleApp::GarrysMod => (4_000, "GarrysMod"@, GARRYS_MOD@),
            SampleApp::GraveyardKeeper => (599_140, "Graveyard Keeper"@, GRAVEYARD_KEEPER@),
            SampleApp::Warframe => (230_410, "Warframe"@, WARFRAME@),
            SampleApp::Resonite => (2_519_830, "Resonite"@, RESONITE@),
        }
    }

    /// The id of the app, the name of its directory and the text of its
    /// manifest.
    pub fn data(&self) -> (data: (u32, &'static str, &'static str))
        ensures
            data.0 == self.spec_id(),
            data.0 == self.spec_data().0,
            data.1@ == self.spec_data().1,
            data.2@ == self.spec_data().2,
    {
        match self {
            SampleApp::GarrysMod => (4_000, "GarrysMod", GARRYS_MOD),
            SampleApp::GraveyardKeeper => (599_140, "Graveyard Keeper", GRAVEYARD_KEEPER),
            SampleApp::Warframe => (230_410, "Warframe", WARFRAME),
            SampleApp::Resonite => (2_519_830, "Resonite", RESONITE),
        }
    }
}

/// The manifest of Garry's Mod.
pub const GARRYS_MOD: &'static str = "\"AppState\"
{
\t\"appid\"\t\t\"4000\"
\t\"Universe\"\t\t\"1\"
\t\"name\"\t\t\"Garry's Mod\"
\t\"StateFlags\"\t\t\"4\"
\t\"installdir\"\t\t\"GarrysMod\"
\t\"LastUpdated\"\t\t\"1699500640\"
\t\"SizeOnDisk\"\t\t\"4152333499\"
\t\"StagingSize\"\t\t\"0\"
\t\"buildid\"\t\t\"12123796\"
\t\"LastOwner\"\t\t\"12312312312312312\"
\t\"UpdateResult\"\t\t\"0\"
\t\"BytesToDownload\"\t\t\"0\"
\t\"BytesDownloaded\"\t\t\"0\"
\t\"BytesToStage\"\t\t\"0\"
\t\"BytesStaged\"\t\t\"0\"
\t\"TargetBuildID\"\t\t\"0\"
\t\"AutoUpdateBehavior\"\t\t\"0\"
\t\"AllowOtherDownloadsWhileRunning\"\t\t\"0\"
\t\"ScheduledAutoUpdate\"\t\t\"0\"
\t\"InstalledDepots\"
\t{
\t\t\"4001\"
\t\t{
\t\t\t\"manifest\"\t\t\"8033896166589795532\"
\t\t\t\"size\"\t\t\"3875126726\"
\t\t}
\t\t\"4003\"
\t\t{
\t\t\t\"manifest\"\t\t\"6271527943975114763\"
\t\t\t\"size\"\t\t\"7519319\"
\t\t}
\t}
\t\"SharedDepots\"
\t{
\t\t\"228988\"\t\t\"228980\"
\t\t\"228990\"\t\t\"228980\"
\t}
\t\"UserConfig\"
\t{
\t}
\t\"MountedConfig\"
\t{
\t}
}
";

/// The manifest of Graveyard Keeper.
pub const GRAVEYARD_KEEPER: &'static str = "\"AppState\"
{
\t\"appid\"\t\t\"599140\"
\t\"Universe\"\t\t\"1\"
\t\"LauncherPath\"\t\t\"/usr/bin/steam\"
\t\"name\"\t\t\"Graveyard Keeper\"
\t\"StateFlags\"\t\t\"6\"
\t\"installdir\"\t\t\"Graveyard Keeper\"
\t\"LastUpdated\"\t\t\"1672176869\"
\t\"SizeOnDisk\"\t\t\"1805798572\"
\t\"StagingSize\"\t\t\"0\"
\t\"buildid\"\t\t\"8559806\"
\t\"LastOwner\"\t\t\"12312312312312312\"
\t\"UpdateResult\"\t\t\"0\"
\t\"BytesToDownload\"\t\t\"24348080\"
\t\"BytesDownloaded\"\t\t\"0\"
\t\"BytesToStage\"\t\t\"1284862702\"
\t\"BytesStaged\"\t\t\"0\"
\t\"TargetBuildID\"\t\t\"8559806\"
\t\"AutoUpdateBehavior\"\t\t\"1\"
\t\"AllowOtherDownloadsWhileRunning\"\t\t\"1\"
\t\"ScheduledAutoUpdate\"\t\t\"1678457806\"
\t\"FullValidateAfterNextUpdate\"\t\t\"1\"
\t\"InstalledDepots\"
\t{
\t\t\"599143\"
\t\t{
\t\t\t\"manifest\"\t\t\"8776335556818666951\"
\t\t\t\"size\"\t\t\"1805798572\"
\t\t}
\t}
\t\"UserConfig\"
\t{
\t\t\"language\"\t\t\"english\"
\t}
\t\"MountedConfig\"
\t{
\t\t\"language\"\t\t\"english\"
\t}
}
";

/// The manifest of Warframe.
pub const WARFRAME: &'static str = "\"AppState\"
{
\t\"appid\"\t\t\"230410\"
\t\"Universe\"\t\t\"1\"
\t\"LauncherPath\"\t\t\"C:\\\\Program Files (x86)\\\\Steam\\\\steam.exe\"
\t\"name\"\t\t\"Warframe\"
\t\"StateFlags\"\t\t\"4\"
\t\"installdir\"\t\t\"Warframe\"
\t\"LastUpdated\"\t\t\"1630871495\"
\t\"UpdateResult\"\t\t\"2\"
\t\"SizeOnDisk\"\t\t\"29070834580\"
\t\"buildid\"\t\t\"6988007\"
\t\"LastOwner\"\t\t\"12312312312312312\"
\t\"BytesToDownload\"\t\t\"30804429728\"
\t\"BytesDownloaded\"\t\t\"30804429728\"
\t\"BytesToStage\"\t\t\"29070834580\"
\t\"BytesStaged\"\t\t\"29070834580\"
\t\"AutoUpdateBehavior\"\t\t\"0\"
\t\"AllowOtherDownloadsWhileRunning\"\t\t\"0\"
\t\"ScheduledAutoUpdate\"\t\t\"0\"
\t\"InstalledDepots\"
\t{
\t\t\"230411\"
\t\t{
\t\t\t\"manifest\"\t\t\"1659398175797234554\"
\t\t\t\"size\"\t\t\"29070834580\"
\t\t\t\"dlcappid\"\t\t\"230410\"
\t\t}
\t}
\t\"InstallScripts\"
\t{
\t\t\"230411\"\t\t\"installscript.vdf\"
\t}
\t\"UserConfig\"
\t{
\t\t\"language\"\t\t\"english\"
\t}
}
";

/// The manifest of Resonite, which writes `lastupdated` in small letters.
pub const RESONITE: &'static str = "\"AppState\"
{
\t\"appid\"\t\t\"2519830\"
\t\"universe\"\t\t\"1\"
\t\"name\"\t\t\"Resonite\"
\t\"StateFlags\"\t\t\"4\"
\t\"installdir\"\t\t\"Resonite\"
\t\"lastupdated\"\t\t\"1702688752\"
\t\"SizeOnDisk\"\t\t\"1100054266\"
\t\"buildid\"\t\t\"12967476\"
}
";

/// One app of a made-up installation: its id, the name of its directory,
/// and the text of its manifest.
#[derive(Debug, Clone, PartialEq, Eq)]
pub struct AppFile {
    pub id: u32,
    pub install_dir: String,
    pub contents: String,
}

impl From<SampleApp> for AppFile {
    fn from(sample: SampleApp) -> (file: AppFile) {
        AppFile::of(sample)
    }
}

impl vstd::std_specs::convert::FromSpecImpl<SampleApp> for AppFile {
    /// What the conversion makes is said by [`AppFile::of`], over texts.
    open spec fn obeys_from_spec() -> bool {
        false
    }

    open spec fn from_spec(sample: SampleApp) -> Self {
        arbitrary()
    }
}

impl AppFile {
    /// Whether this is the file of a sample app.
    pub open spec fn is_sample(self, sample: SampleApp) -> bool {
        &&& self.id == sample.id()
        &&& self.install_dir@ == sample.spec_data().1
        &&& self.contents@ == sample.spec_data().2
    }

    /// The file of a sample app.
    pub fn of(sample: SampleApp) -> (file: AppFile)
        ensures
            file.is_sample(sample),
    {
        AppFile {
            id: sample.id(),
            install_dir: sample.install_dir().to_owned(),
            contents: sample.contents().to_owned(),
        }
    }

    /// The name of the app's manifest file.
    pub fn file_name(&self) -> (name: String)
        ensures
            name@ == manifest_file(self.id),
            encode_utf8(name@) == manifest_name_of(self.id),
            manifest_id(encode_utf8(name@)) == Some(self.id),
    {
        manifest_name(self.id)
    }
}

/// Whether a directory entry is the manifest file of an app: it is named
/// as the manifest of the app, and holds the text of the manifest.
pub open spec fn is_manifest_of(entry: DirEntry, app: AppFile) -> bool {
    &&& entry.name@ == manifest_file(app.id)
    &&& manifest_id(encode_utf8(entry.name@)) == Some(app.id)
    &&& entry.item matches Item::File(bytes) && bytes@ == encode_utf8(app.contents@)
}

/// Whether a directory entry is the directory of an app: it has the name
/// of the app's install directory, and is an empty directory.
pub open spec fn is_dir_of(entry: DirEntry, app: AppFile) -> bool {
    &&& entry.name@ == app.install_dir@
    &&& entry.item matches Item::Dir(inside) && inside@.len() == 0
}

/// Whether a directory entry is the `common` directory of some apps: it
/// holds the directory of each app, in their order.
pub open spec fn is_common_of(entry: DirEntry, apps: Seq<AppFile>) -> bool {
    &&& entry.name@ == "common"@
    &&& entry.item matches Item::Dir(dirs) && dirs@.len() == apps.len() && forall|i: int|
        0 <= i < apps.len() ==> is_dir_of(#[trigger] dirs@[i], apps[i])
}

/// Makes a file with the given name and text.
pub fn text_file(name: &str, contents: &str) -> (entry: DirEntry)
    ensures
        entry.name@ == name@,
        entry.item matches Item::File(bytes) && bytes@ == encode_utf8(contents@),
{
    DirEntry { name: name.to_owned(), item: Item::File(slice_to_vec(contents.as_bytes())) }
}

/// Makes a directory with the given name that holds the given entries.
pub fn directory(name: &str, entries: Vec<DirEntry>) -> (entry: DirEntry)
    ensures
        entry.name@ == name@,
        entry.item == Item::Dir(entries),
{
    DirEntry { name: name.to_owned(), item: Item::Dir(entries) }
}

/// Fills a `steamapps` directory with some apps: after what it holds
/// already come the manifest file of each app, in their order, and then the
/// `common` directory with the directory of each app.
pub fn setup_steamapps_dir(entries: &mut Vec<DirEntry>, apps: &Vec<AppFile>)
    ensures
        final(entries)@.len() == old(entries)@.len() + apps.len() + 1,
        forall|i: int| 0 <= i < old(entries)@.len() ==> final(entries)@[i] == old(entries)@[i],
        forall|i: int|
            0 <= i < apps.len() ==> is_manifest_of(
                #[trigger] final(entries)@[old(entries)@.len() + i],
                apps[i],
            ),
        is_common_of(final(entries)@.last(), apps@),
{
    let mut dirs: Vec<DirEntry> = Vec::new();
    let mut i: usize = 0;
    while i < apps.len()
        invariant
            i <= apps.len(),
            entries@.len() == old(entries)@.len() + i,
            dirs@.len() == i,
            forall|k: int| 0 <= k < old(entries)@.len() ==> entries@[k] == old(entries)@[k],
            forall|k: int|
                0 <= k < i ==> is_manifest_of(#[trigger] entries@[old(entries)@.len() + k], apps[k]),
            forall|k: int| 0 <= k < i ==> is_dir_of(#[trigger] dirs@[k], apps[k]),
        decreases apps.len() - i,
    {
        let app = &apps[i];
        let name = app.file_name();
        entries.push(text_file(name.as_str(), app.contents.as_str()));
        dirs.push(directory(app.install_dir.as_str(), Vec::new()));
        i += 1;
    }
    entries.push(directory("common", dirs));
}

/// One library folder, as the file that lists the folders describes it.
#[derive(Debug, Clone, PartialEq, Eq)]
pub struct LibraryFolder {
    pub path: String,
    pub label: String,
    pub contentid: i32,
    pub totalsize: u64,
    pub update_clean_bytes_tally: u64,
    pub time_last_update_corruption: u64,
    /// The apps that the listing claims for the folder, each with its
    /// size.
    pub apps: Vec<(u32, u64)>,
}

/// The sizes of some apps added up, as far as 64 bits hold the sum.
pub open spec fn total_size(apps: Seq<(u32, u64)>) -> u64
    decreases apps.len(),
{
    if apps.len() == 0 {
        0
    } else {
        let sum = total_size(apps.drop_last()) + apps.last().1;
        if sum > u64::MAX {
            u64::MAX
        } else {
            sum as u64
        }
    }
}

impl LibraryFolder {
    /// The description of a folder with the given path, content id and
    /// apps, and with the usual values for the rest.
    pub fn mostly_default(path: String, contentid: i32, apps: Vec<(u32, u64)>) -> (folder:
        LibraryFolder)
        ensures
            folder@ == usual_folder(path@, contentid, apps@),
    {
        let mut totalsize: u64 = 0;
        let mut i: usize = 0;
        while i < apps.len()
            invariant
                i <= apps.len(),
                totalsize == total_size(apps@.take(i as int)),
            decreases apps.len() - i,
        {
            assert(apps@.take(i + 1).drop_last() =~= apps@.take(i as int));
            totalsize = totalsize.saturating_add(apps[i].1);
            i += 1;
        }
        assert(apps@.take(i as int) =~= apps@);
        let label = String::new();
        assert(label@ =~= Seq::<char>::empty());
        LibraryFolder {
            path,
            contentid,
            apps,
            totalsize,
            label,
            update_clean_bytes_tally: 79_799_828_443,
            time_last_update_corruption: 0,
        }
    }
}

/// The text that writes a number in base ten.
pub open spec fn decimal(number: nat) -> Seq<char> {
    ascii_chars(decimal_digits(number))
}

/// The text that writes a number with a sign in base ten.
pub open spec fn signed_decimal(number: i32) -> Seq<char> {
    if number < 0 {
        "-"@ + decimal((-number) as nat)
    } else {
        decimal(number as nat)
    }
}

/// Writes a number with a sign in base ten.
pub fn signed_text(number: i32) -> (text: String)
    ensures
        text@ == signed_decimal(number),
{
    if number < 0 {
        let size: u64 = (-(number as i64)) as u64;
        let mut text = "-".to_owned();
        text.append(decimal_text(size).as_str());
        text
    } else {
        decimal_text(number as u64)
    }
}

/// A text with one more line of a folder's description: a key and its
/// value, both quoted.
pub open spec fn with_field(text: Seq<char>, key: Seq<char>, value: Seq<char>) -> Seq<char> {
    text + "\t\t\""@ + key + "\"\t\t\""@ + value + "\"\n"@
}

/// A text with one more line of a folder's apps: the id of an app and its
/// size, both quoted.
pub open spec fn with_app(text: Seq<char>, id: u32, size: u64) -> Seq<char> {
    text + "\t\t\t\""@ + decimal(id as nat) + "\"\t\t\""@ + decimal(size as nat) + "\"\n"@
}

/// A text with one more line for each of a folder's apps.
pub open spec fn with_apps(text: Seq<char>, apps: Seq<(u32, u64)>) -> Seq<char>
    decreases apps.len(),
{
    if apps.len() == 0 {
        text
    } else {
        with_app(with_apps(text, apps.drop_last()), apps.last().0, apps.last().1)
    }
}

/// What the description of one library folder holds, as texts and
/// numbers.
pub ghost struct FolderView {
    pub path: Seq<char>,
    pub label: Seq<char>,
    pub contentid: i32,
    pub totalsize: u64,
    pub update_clean_bytes_tally: u64,
    pub time_last_update_corruption: u64,
    pub apps: Seq<(u32, u64)>,
}

impl View for LibraryFolder {
    type V = FolderView;

    open spec fn view(&self) -> FolderView {
        FolderView {
            path: self.path@,
            label: self.label@,
            contentid: self.contentid,
            totalsize: self.totalsize,
            update_clean_bytes_tally: self.update_clean_bytes_tally,
            time_last_update_corruption: self.time_last_update_corruption,
            apps: self.apps@,
        }
    }
}

/// The description of a folder with the given path, content id and apps,
/// and with the usual values for the rest.
pub open spec fn usual_folder(path: Seq<char>, contentid: i32, apps: Seq<(u32, u64)>) -> FolderView {
    FolderView {
        path,
        label: Seq::empty(),
        contentid,
        totalsize: total_size(apps),
        update_clean_bytes_tally: 79_799_828_443,
        time_last_update_corruption: 0,
        apps,
    }
}

/// A text with the description of one more folder, under the number
/// `index`. Paths and labels are written as they stand.
pub open spec fn with_folder(text: Seq<char>, index: nat, folder: FolderView) -> Seq<char> {
    let head = text + "\t\""@ + decimal(index) + "\"\n\t{\n"@;
    let path = with_field(head, "path"@, folder.path);
    let label = with_field(path, "label"@, folder.label);
    let contentid = with_field(label, "contentid"@, signed_decimal(folder.contentid));
    let totalsize = with_field(contentid, "totalsize"@, decimal(folder.totalsize as nat));
    let tally = with_field(
        totalsize,
        "update_clean_bytes_tally"@,
        decimal(folder.update_clean_bytes_tally as nat),
    );
    let corruption = with_field(
        tally,
        "time_last_update_corruption"@,
        decimal(folder.time_last_update_corruption as nat),
    );
    with_apps(corruption + "\t\t\"apps\"\n\t\t{\n"@, folder.apps) + "\t\t}\n\t}\n"@
}

/// A text with the descriptions of some more folders, numbered from zero.
pub open spec fn with_folders(text: Seq<char>, folders: Seq<FolderView>) -> Seq<char>
    decreases folders.len(),
{
    if folders.len() == 0 {
        text
    } else {
        with_folder(
            with_folders(text, folders.drop_last()),
            (folders.len() - 1) as nat,
            folders.last(),
        )
    }
}

/// The text of the file that lists some library folders.
pub open spec fn listing_text(folders: Seq<FolderView>) -> Seq<char> {
    with_folders("\"libraryfolders\"\n{\n"@, folders) + "}\n"@
}

/// What the descriptions of some folders hold.
pub open spec fn folder_views(folders: Seq<LibraryFolder>) -> Seq<FolderView> {
    folders.map_values(|folder: LibraryFolder| folder@)
}

/// Appends one line of a folder's description to a text.
pub fn push_field(text: &mut String, key: &str, value: &str)
    ensures
        final(text)@ == with_field(old(text)@, key@, value@),
{
    text.append("\t\t\"");
    text.append(key);
    text.append("\"\t\t\"");
    text.append(value);
    text.append("\"\n");
}

/// Appends the description of one folder to a text.
pub fn push_folder(text: &mut String, index: usize, folder: &LibraryFolder)
    ensures
        final(text)@ == with_folder(old(text)@, index as nat, folder@),
{
    text.append("\t\"");
    text.append(decimal_text(index as u64).as_str());
    text.append("\"\n\t{\n");
    push_field(text, "path", folder.path.as_str());
    push_field(text, "label", folder.label.as_str());
    push_field(text, "contentid", signed_text(folder.contentid).as_str());
    push_field(text, "totalsize", decimal_text(folder.totalsize).as_str());
    push_field(
        text,
        "update_clean_bytes_tally",
        decimal_text(folder.update_clean_bytes_tally).as_str(),
    );
    push_field(
        text,
        "time_last_update_corruption",
        decimal_text(folder.time_last_update_corruption).as_str(),
    );
    text.append("\t\t\"apps\"\n\t\t{\n");
    let ghost start = text@;
    let mut i: usize = 0;
    while i < folder.apps.len()
        invariant
            i <= folder.apps.len(),
            text@ == with_apps(start, folder.apps@.take(i as int)),
        decreases folder.apps.len() - i,
    {
        assert(folder.apps@.take(i + 1).drop_last() =~= folder.apps@.take(i as int));
        text.append("\t\t\t\"");
        text.append(decimal_text(folder.apps[i].0 as u64).as_str());
        text.append("\"\t\t\"");
        text.append(decimal_text(folder.apps[i].1).as_str());
        text.append("\"\n");
        i += 1;
    }
    assert(folder.apps@.take(i as int) =~= folder.apps@);
    text.append("\t\t}\n\t}\n");
}

/// Writes the text of the file that lists some library folders.
pub fn setup_libraryfolders_file(folders: &Vec<LibraryFolder>) -> (text: String)
    ensures
        text@ == listing_text(folder_views(folders@)),
{
    let mut text = "\"libraryfolders\"\n{\n".to_owned();
    let mut i: usize = 0;
    while i < folders.len()
        invariant
            i <= folders.len(),
            text@ == with_folders(
                "\"libraryfolders\"\n{\n"@,
                folder_views(folders@.take(i as int)),
            ),
        decreases folders.len() - i,
    {
        assert(folder_views(folders@.take(i + 1)).drop_last() =~= folder_views(
            folders@.take(i as int),
        ));
        push_folder(&mut text, i, &folders[i]);
        i += 1;
    }
    assert(folders@.take(i as int) =~= folders@);
    text.append("}\n");
    text
}

/// A made-up library folder, not yet part of an installation.
#[derive(Debug)]
pub struct TempLibrary {
    pub content_id: i32,
    /// The apps of the library, each with the size that the listing will
    /// claim for it.
    pub apps: Vec<(u32, u64)>,
    /// What the `steamapps` directory of the library holds.
    pub steamapps: Vec<DirEntry>,
}

/// Makes a [`TempLibrary`] app by app.
#[derive(Debug)]
pub struct TempLibraryBuilder {
    apps: Vec<AppFile>,
}

/// The ids of some apps, each with a size of zero.
pub open spec fn claimed(apps: Seq<AppFile>) -> Seq<(u32, u64)> {
    apps.map_values(|app: AppFile| (app.id, 0u64))
}

/// Lists the ids of some apps, each with a size of zero.
pub fn claim_apps(apps: &Vec<AppFile>) -> (claims: Vec<(u32, u64)>)
    ensures
        claims@ == claimed(apps@),
{
    let mut claims: Vec<(u32, u64)> = Vec::new();
    let mut i: usize = 0;
    while i < apps.len()
        invariant
            i <= apps.len(),
            claims@ == claimed(apps@.take(i as int)),
        decreases apps.len() - i,
    {
        claims.push((apps[i].id, 0));
        assert(claims@ =~= claimed(apps@.take(i + 1)));
        i += 1;
    }
    assert(apps@.take(i as int) =~= apps@);
    claims
}

impl TempLibrary {
    /// Whether this is the library that is made of the given apps: its
    /// `steamapps` directory holds a file about the folder itself, then
    /// the manifest of each app, then the `common` directory with the
    /// directory of each app.
    pub open spec fn holds(self, stored: Seq<AppFile>) -> bool {
        &&& self.content_id == 1234
        &&& self.apps@ == claimed(stored)
        &&& self.steamapps@.len() == stored.len() + 2
        &&& is_text_file(self.steamapps@[0], "libraryfolder.vdf"@, LIBRARY_FOLDER@)
        &&& forall|i: int|
            0 <= i < stored.len() ==> is_manifest_of(#[trigger] self.steamapps@[1 + i], stored[i])
        &&& is_common_of(self.steamapps@.last(), stored)
    }

    /// Starts a library without apps.
    pub fn builder() -> (builder: TempLibraryBuilder)
        ensures
            builder.apps().len() == 0,
    {
        TempLibraryBuilder::new()
    }
}

impl TempLibraryBuilder {
    /// The apps that were added, in the order they were added in.
    pub closed spec fn apps(self) -> Seq<AppFile> {
        self.apps@
    }

    /// Starts a library without apps.
    pub fn new() -> (builder: TempLibraryBuilder)
        ensures
            builder.apps().len() == 0,
    {
        TempLibraryBuilder { apps: Vec::new() }
    }

    /// Adds an app.
    pub fn app(self, app: AppFile) -> (builder: TempLibraryBuilder)
        ensures
            builder.apps() == self.apps().push(app),
    {
        let mut apps = self.apps;
        apps.push(app);
        TempLibraryBuilder { apps }
    }

    /// Makes the library: its `steamapps` directory holds a file about the
    /// folder itself, then the manifest of each app, then the `common`
    /// directory with the directory of each app.
    pub fn finish(self) -> (library: TempLibrary)
        ensures
            library.content_id == 1234,
            library.apps@ == claimed(self.apps()),
            library.steamapps@.len() == self.apps().len() + 2,
            is_text_file(library.steamapps@[0], "libraryfolder.vdf"@, LIBRARY_FOLDER@),
            forall|i: int|
                0 <= i < self.apps().len() ==> is_manifest_of(
                    #[trigger] library.steamapps@[1 + i],
                    self.apps()[i],
                ),
            is_common_of(library.steamapps@.last(), self.apps()),
            library.holds(self.apps()),
    {
        let mut steamapps: Vec<DirEntry> = Vec::new();
        steamapps.push(text_file("libraryfolder.vdf", LIBRARY_FOLDER));
        setup_steamapps_dir(&mut steamapps, &self.apps);
        TempLibrary { content_id: 1234, apps: claim_apps(&self.apps), steamapps }
    }
}

/// What a library folder holds about itself.
pub const LIBRARY_FOLDER: &'static str = "\"libraryfolder\"
{
\t\"contentid\"\t\t\"1234\"
\t\"label\"\t\t\"\"
}
";

/// A made-up installation.
#[derive(Debug)]
pub struct TempSteamDir {
    path: String,
    files: Snapshot,
    _tmps: Vec<TempDir>,
}

/// Makes a [`TempSteamDir`] app by app and library by library.
#[derive(Debug)]
pub struct TempSteamDirBuilder {
    libraries: Vec<TempLibrary>,
    apps: Vec<AppFile>,
    config: Option<String>,
}

impl TempSteamDirBuilder {
    /// The apps that were added to the installation's own library, in the
    /// order they were added in.
    pub closed spec fn apps(self) -> Seq<AppFile> {
        self.apps@
    }

    /// The libraries that were added, in the order they were added in.
    pub closed spec fn libraries(self) -> Seq<TempLibrary> {
        self.libraries@
    }

    /// The text of the client's settings, if one was given.
    pub closed spec fn settings(self) -> Option<String> {
        self.config
    }

    /// Starts an installation without apps, libraries or settings.
    pub fn new() -> (builder: TempSteamDirBuilder)
        ensures
            builder.apps().len() == 0,
            builder.libraries().len() == 0,
            builder.settings() is None,
    {
        TempSteamDirBuilder { libraries: Vec::new(), apps: Vec::new(), config: None }
    }

    /// Adds an app to the installation's own library.
    pub fn app(self, app: AppFile) -> (builder: TempSteamDirBuilder)
        ensures
            builder.apps() == self.apps().push(app),
            builder.libraries() == self.libraries(),
            builder.settings() == self.settings(),
    {
        let mut apps = self.apps;
        apps.push(app);
        TempSteamDirBuilder { libraries: self.libraries, apps, config: self.config }
    }

    /// Adds a library.
    pub fn library(self, library: TempLibrary) -> (builder: TempSteamDirBuilder)
        ensures
            builder.apps() == self.apps(),
            builder.libraries() == self.libraries().push(library),
            builder.settings() == self.settings(),
    {
        let mut libraries = self.libraries;
        libraries.push(library);
        TempSteamDirBuilder { libraries, apps: self.apps, config: self.config }
    }

    /// Gives the text of the client's settings.
    pub fn config(self, contents: String) -> (builder: TempSteamDirBuilder)
        ensures
            builder.apps() == self.apps(),
            builder.libraries() == self.libraries(),
            builder.settings() == Some(contents),
    {
        TempSteamDirBuilder { libraries: self.libraries, apps: self.apps, config: Some(contents) }
    }

    /// Makes the installation. It is at `test-steam-dir/Steam` in the
    /// directory with the number zero and is its own first library; each
    /// library that was added is at `test-library` in a directory of its
    /// own, numbered from one. The file that lists the library folders
    /// describes them all, in that order.
    pub fn finish(self) -> (made: TempSteamDir)
        ensures
            made.place() == steam_place(),
            made.files().roots@.len() == 1 + self.libraries().len(),
            is_steam_root(
                made.files().roots@[0],
                self.apps(),
                self.libraries(),
                self.settings(),
            ),
            forall|i: int|
                0 <= i < self.libraries().len() ==> is_library_root(
                    #[trigger] made.files().roots@[1 + i],
                    library_place(i as nat),
                    self.libraries()[i],
                ),
    {
        let tmp = TempDir::new(0);
        let root_dir = join(tmp.path(), "test-steam-dir");
        let steam_dir = join(root_dir.as_str(), "Steam");
        let mut tmps: Vec<TempDir> = Vec::new();
        tmps.push(tmp);

        let mut folders: Vec<LibraryFolder> = Vec::new();
        folders.push(
            LibraryFolder::mostly_default(steam_dir.clone(), i32::MIN, claim_apps(&self.apps)),
        );
        let mut roots: Vec<DirEntry> = Vec::new();
        let mut libraries = self.libraries;
        let ghost all = libraries@;
        let count = libraries.len();
        assert(all.len() == self.libraries().len() && all.len() == count);
        assert(folder_views(folders@) =~= listed_folders(self.apps(), all.take(0)));
        let mut i: usize = 0;
        while libraries.len() > 0
            invariant
                i + libraries.len() == all.len(),
                all.len() <= usize::MAX,
                libraries@ == all.skip(i as int),
                roots@.len() == i,
                tmps@.len() == 1 + i,
                folder_views(folders@) == listed_folders(self.apps(), all.take(i as int)),
                forall|k: int|
                    0 <= k < i ==> is_library_root(
                        #[trigger] roots@[k],
                        library_place(k as nat),
                        all[k],
                    ),
            decreases libraries.len(),
        {
            let library = libraries.remove(0);
            assert(library == all[i as int]);
            assert(libraries@ =~= all.skip(i as int + 1));
            let tmp = TempDir::new((i + 1) as u64);
            let path = join(tmp.path(), "test-library");
            let ghost before = folders@;
            folders.push(LibraryFolder::mostly_default(path.clone(), library.content_id, library.apps));
            proof {
                assert(all.take(i as int + 1).drop_last() =~= all.take(i as int));
                assert(folder_views(folders@) =~= folder_views(before).push(
                    usual_folder(library_place(i as nat), library.content_id, library.apps@),
                ));
            }
            let mut top: Vec<DirEntry> = Vec::new();
            top.push(directory("steamapps", library.steamapps));
            roots.push(directory(path.as_str(), top));
            tmps.push(tmp);
            i += 1;
        }
        assert(all.take(i as int) =~= all);

        let listing = setup_libraryfolders_file(&folders);
        let mut steamapps: Vec<DirEntry> = Vec::new();
        steamapps.push(text_file("libraryfolders.vdf", listing.as_str()));
        setup_steamapps_dir(&mut steamapps, &self.apps);
        let mut top: Vec<DirEntry> = Vec::new();
        top.push(directory("steamapps", steamapps));
        match self.config {
            Some(contents) => {
                let mut config: Vec<DirEntry> = Vec::new();
                config.push(text_file("config.vdf", contents.as_str()));
                top.push(directory("config", config));
            },
            None => {},
        }
        let ghost added = roots@;
        roots.insert(0, directory(steam_dir.as_str(), top));
        assert(forall|k: int| 0 <= k < added.len() ==> roots@[1 + k] == added[k]);
        TempSteamDir { path: steam_dir, files: Snapshot { roots }, _tmps: tmps }
    }
}

/// The path of a made-up installation.
pub open spec fn steam_place() -> Seq<char> {
    joined(joined(TempDir::new_place(0), "test-steam-dir"@), "Steam"@)
}

/// The path of the library that was added to a made-up installation as the
/// one with the given number, counted from zero.
pub open spec fn library_place(number: nat) -> Seq<char> {
    joined(TempDir::new_place((number + 1) as u64), "test-library"@)
}

/// The descriptions of the folders of a made-up installation with the
/// given apps and libraries: first the installation itself, then each
/// library.
pub open spec fn listed_folders(apps: Seq<AppFile>, libraries: Seq<TempLibrary>) -> Seq<
    FolderView,
>
    decreases libraries.len(),
{
    if libraries.len() == 0 {
        seq![usual_folder(steam_place(), i32::MIN, claimed(apps))]
    } else {
        listed_folders(apps, libraries.drop_last()).push(
            usual_folder(
                library_place((libraries.len() - 1) as nat),
                libraries.last().content_id,
                libraries.last().apps@,
            ),
        )
    }
}

/// Whether a directory entry is a file with the given name and text.
pub open spec fn is_text_file(entry: DirEntry, name: Seq<char>, contents: Seq<char>) -> bool {
    &&& entry.name@ == name
    &&& entry.item matches Item::File(bytes) && bytes@ == encode_utf8(contents)
}

/// Whether a root of the disk is a library at `place`: a directory that
/// holds `steamapps`, which holds what the library's `steamapps` holds.
pub open spec fn is_library_root(root: DirEntry, place: Seq<char>, library: TempLibrary) -> bool {
    &&& root.name@ == place
    &&& root.item matches Item::Dir(top) && top@.len() == 1 && top@[0].name@ == "steamapps"@
        && top@[0].item == Item::Dir(library.steamapps)
}

/// Whether a directory holds what the `steamapps` of a made-up
/// installation holds: the file that lists the folders, then the manifest
/// of each app, then the `common` directory with the directory of each
/// app.
pub open spec fn is_steamapps_of(
    entries: Seq<DirEntry>,
    apps: Seq<AppFile>,
    libraries: Seq<TempLibrary>,
) -> bool {
    &&& entries.len() == apps.len() + 2
    &&& is_text_file(
        entries[0],
        "libraryfolders.vdf"@,
        listing_text(listed_folders(apps, libraries)),
    )
    &&& forall|i: int| 0 <= i < apps.len() ==> is_manifest_of(#[trigger] entries[1 + i], apps[i])
    &&& is_common_of(entries.last(), apps)
}

/// Whether a root of the disk is a made-up installation: a directory at
/// [`steam_place`] that holds `steamapps` and, if settings were given,
/// `config` with the settings file.
pub open spec fn is_steam_root(
    root: DirEntry,
    apps: Seq<AppFile>,
    libraries: Seq<TempLibrary>,
    settings: Option<String>,
) -> bool {
    &&& root.name@ == steam_place()
    &&& root.item matches Item::Dir(top) && {
        &&& top@.len() == if settings is Some {
            2nat
        } else {
            1nat
        }
        &&& top@[0].name@ == "steamapps"@
        &&& top@[0].item matches Item::Dir(entries) && is_steamapps_of(entries@, apps, libraries)
        &&& settings matches Some(contents) ==> top@[1].name@ == "config"@ && (
        top@[1].item matches Item::Dir(config) && config@.len() == 1 && is_text_file(
            config@[0],
            "config.vdf"@,
            contents@,
        ))
    }
}

impl TempDir {
    /// The path of the directory with the given number.
    pub open spec fn new_place(serial: u64) -> Seq<char> {
        "/tmp/steamlocate-test-"@ + ascii_chars(decimal_digits(serial as nat))
    }
}

impl TempSteamDir {
    #[verifier::type_invariant]
    spec fn well_formed(self) -> bool {
        is_dir(self.files.at(self.path@))
    }

    /// The path of the installation.
    pub closed spec fn place(self) -> Seq<char> {
        self.path@
    }

    /// What the made-up disk holds.
    pub closed spec fn files(self) -> Snapshot {
        self.files
    }

    /// Starts an installation without apps, libraries or settings.
    pub fn builder() -> (builder: TempSteamDirBuilder)
        ensures
            builder.apps().len() == 0,
            builder.libraries().len() == 0,
            builder.settings() is None,
    {
        TempSteamDirBuilder::new()
    }

    /// The installation, to put questions to.
    pub fn steam_dir(&self) -> (dir: SteamDir<'_>)
        ensures
            dir.root() == self.place(),
            dir.files() == self.files(),
    {
        proof {
            use_type_invariant(self);
        }
        match SteamDir::from_dir(self.path.as_str(), &self.files) {
            Ok(dir) => dir,
            Err(_) => unreached(),
        }
    }
}

/// Whether a made-up disk is the one that most trials go by: Garry's Mod
/// and Warframe in the installation's own library, and Graveyard Keeper in
/// a library of its own.
pub open spec fn is_test_env(files: Snapshot) -> bool {
    exists|apps: Seq<AppFile>, stored: Seq<AppFile>, library: TempLibrary|
        #![trigger is_steam_root(files.roots@[0], apps, seq![library], None), claimed(stored)]
        {
            &&& files.roots@.len() == 2
            &&& apps.len() == 2
            &&& apps[0].is_sample(SampleApp::GarrysMod)
            &&& apps[1].is_sample(SampleApp::Warframe)
            &&& stored.len() == 1
            &&& stored[0].is_sample(SampleApp::GraveyardKeeper)
            &&& library.holds(stored)
            &&& is_steam_root(files.roots@[0], apps, seq![library], None)
            &&& is_library_root(files.roots@[1], library_place(0), library)
        }
}

/// Makes the installation that most trials go by: Garry's Mod and Warframe
/// in the installation's own library, and Graveyard Keeper in a library of
/// its own.
pub fn expect_test_env() -> (made: TempSteamDir)
    ensures
        made.place() == steam_place(),
        is_test_env(made.files()),
{
    let library_builder = TempLibrary::builder().app(AppFile::of(SampleApp::GraveyardKeeper));
    let ghost stored = library_builder.apps();
    let library = library_builder.finish();
    let ghost held = library;
    let builder = TempSteamDir::builder().app(AppFile::of(SampleApp::GarrysMod)).app(
        AppFile::of(SampleApp::Warframe),
    ).library(library);
    let ghost apps = builder.apps();
    let made = builder.finish();
    proof {
        assert(builder.libraries() =~= seq![held]);
        assert(is_library_root(made.files().roots@[1 + 0int], library_place(0), held));
        assert(is_manifest_of(held.steamapps@[1 + 0int], stored[0]));
        assert(is_steam_root(made.files().roots@[0], apps, seq![held], None));
        assert(claimed(stored) == held.apps@);
    }
    made
}

/// The ids of some apps, each of them once, in the order in which the
/// apps first have them.
pub open spec fn first_ids(apps: Seq<AppFile>) -> Seq<u32>
    decreases apps.len(),
{
    if apps.len() == 0 {
        Seq::empty()
    } else {
        let before = first_ids(apps.drop_last());
        if before.contains(apps.last().id) {
            before
        } else {
            before.push(apps.last().id)
        }
    }
}

/// The id of every app is among the ids of the apps.
pub proof fn lemma_first_ids(apps: Seq<AppFile>, at: int)
    requires
        0 <= at < apps.len(),
    ensures
        first_ids(apps).contains(apps[at].id),
    decreases apps.len(),
{
    let before = first_ids(apps.drop_last());
    let ids = first_ids(apps);
    if at < apps.len() - 1 {
        lemma_first_ids(apps.drop_last(), at);
        let k = choose|k: int| 0 <= k < before.len() && before[k] == apps[at].id;
        assert(ids[k] == apps[at].id);
    } else if before.contains(apps[at].id) {
    } else {
        assert(ids[ids.len() - 1] == apps[at].id);
    }
}

/// A directory that holds the manifest of each of some apps, and nothing
/// else, holds a manifest of just those apps.
pub proof fn lemma_ids_of_manifests(entries: Seq<DirEntry>, apps: Seq<AppFile>)
    requires
        entries.len() == apps.len(),
        forall|i: int| 0 <= i < apps.len() ==> is_manifest_of(#[trigger] entries[i], apps[i]),
    ensures
        manifest_ids(entries) == first_ids(apps),
    decreases entries.len(),
{
    if entries.len() > 0 {
        let front = entries.drop_last();
        assert forall|i: int| 0 <= i < apps.drop_last().len() implies is_manifest_of(
            #[trigger] front[i],
            apps.drop_last()[i],
        ) by {
            assert(is_manifest_of(entries[i], apps[i]));
        }
        lemma_ids_of_manifests(front, apps.drop_last());
        assert(is_manifest_of(entries[entries.len() - 1], apps[apps.len() - 1]));
    }
}

/// An entry at the front of a directory that is no manifest adds no app to
/// those that the directory holds a manifest of.
pub proof fn lemma_ids_without_front(entries: Seq<DirEntry>)
    requires
        entries.len() > 0,
        entry_id(entries[0]) is None,
    ensures
        manifest_ids(entries) == manifest_ids(entries.drop_first()),
    decreases entries.len(),
{
    if entries.len() == 1 {
        assert(entries.drop_first() =~= Seq::<DirEntry>::empty());
        assert(entries.drop_last() =~= Seq::<DirEntry>::empty());
    } else {
        lemma_ids_without_front(entries.drop_last());
        assert(entries.drop_first().drop_last() =~= entries.drop_last().drop_first());
    }
}

/// The files `libraryfolders.vdf` and `libraryfolder.vdf` and the
/// directory `common` are no manifests.
pub proof fn lemma_no_manifests(entry: DirEntry)
    requires
        entry.name@ == "libraryfolders.vdf"@ || entry.name@ == "libraryfolder.vdf"@ || entry.name@
            == "common"@,
    ensures
        entry_id(entry) is None,
{
    reveal_strlit("libraryfolders.vdf");
    reveal_strlit("libraryfolder.vdf");
    reveal_strlit("common");
    let name = entry.name@;
    assert(is_ascii_chars(name));
    is_ascii_chars_encode_utf8(name);
    let bytes = encode_utf8(name);
    if name.len() >= 16 {
        assert(name[0] == 'l');
        assert(bytes[0] == 0x6c);
        assert(bytes.take(12)[0] != manifest_prefix()[0]);
    }
}

/// What the `steamapps` directory of a made-up installation or library
/// holds a manifest of: the apps that were put into it, each once.
pub proof fn lemma_ids_of_steamapps(entries: Seq<DirEntry>, apps: Seq<AppFile>)
    requires
        entries.len() == apps.len() + 2,
        entries[0].name@ == "libraryfolders.vdf"@ || entries[0].name@ == "libraryfolder.vdf"@,
        forall|i: int| 0 <= i < apps.len() ==> is_manifest_of(#[trigger] entries[1 + i], apps[i]),
        entries.last().name@ == "common"@,
    ensures
        manifest_ids(entries) == first_ids(apps),
{
    lemma_no_manifests(entries[0]);
    lemma_no_manifests(entries.last());
    let inner = entries.drop_last();
    lemma_ids_without_front(inner);
    let manifests = inner.drop_first();
    assert forall|i: int| 0 <= i < apps.len() implies is_manifest_of(
        #[trigger] manifests[i],
        apps[i],
    ) by {
        assert(manifests[i] == entries[1 + i]);
    }
    lemma_ids_of_manifests(manifests, apps);
}

/// The installation's own library of a made-up installation holds the
/// apps that were put into it, whatever the file that lists the folders
/// says: a library that is made of the installation's directory has
/// exactly their ids, and a search through folders of which that directory
/// is the first finds each of them there.
pub proof fn lemma_made_up_installation(
    files: Snapshot,
    apps: Seq<AppFile>,
    libraries: Seq<TempLibrary>,
    settings: Option<String>,
)
    requires
        files.roots@.len() > 0,
        is_steam_root(files.roots@[0], apps, libraries, settings),
    ensures
        listing(below(files.at(steam_place()), "steamapps"@)) matches Ok(entries) && manifest_ids(
            entries,
        ) == first_ids(apps),
        forall|i: int|
            0 <= i < apps.len() ==> holds_app(files, steam_place(), (#[trigger] apps[i]).id),
        forall|paths: Seq<Seq<char>>, i: int|
            0 <= i < apps.len() && paths.len() > 0 && paths[0] == steam_place() ==> #[trigger] holder(
                files,
                paths,
                apps[i].id,
                0,
            ) == Some(0int),
{
    let root = files.roots@[0];
    assert(index_of(files.roots@, steam_place(), 0) == Some(0int));
    assert(files.at(steam_place()) == Some(root.item));
    let top = root.item->Dir_0;
    assert(index_of(top@, "steamapps"@, 0) == Some(0int));
    let entries = top@[0].item->Dir_0@;
    assert(below(files.at(steam_place()), "steamapps"@) == Some(top@[0].item));
    lemma_ids_of_steamapps(entries, apps);
    assert forall|i: int| 0 <= i < apps.len() implies holds_app(
        files,
        steam_place(),
        (#[trigger] apps[i]).id,
    ) by {
        lemma_first_ids(apps, i);
    }
}

/// The digits of different numbers are different texts.
pub proof fn lemma_decimal_texts_differ(a: nat, b: nat)
    requires
        a != b,
    ensures
        decimal(a) != decimal(b),
{
    crate::text::lemma_decimal_digits(a);
    crate::text::lemma_decimal_digits(b);
    let x = decimal_digits(a);
    let y = decimal_digits(b);
    if decimal(a) == decimal(b) {
        assert(decimal(a).len() == x.len());
        assert(decimal(b).len() == y.len());
        assert(x.len() == y.len());
        assert forall|k: int| 0 <= k < x.len() implies x[k] == y[k] by {
            assert(decimal(a)[k] == x[k] as char);
            assert(decimal(b)[k] == y[k] as char);
            assert(0x30 <= x[k] <= 0x39 && 0x30 <= y[k] <= 0x39);
        }
        assert(x =~= y);
    }
}

/// The libraries of a made-up installation are at places of their own:
/// none is at the place of the installation, and no two are at one place.
pub proof fn lemma_places_differ(a: nat, b: nat)
    requires
        a < u64::MAX,
        b < u64::MAX,
    ensures
        library_place(a) != steam_place(),
        a != b ==> library_place(a) != library_place(b),
{
    reveal_strlit("Steam");
    reveal_strlit("test-library");
    reveal_strlit("/tmp/steamlocate-test-");
    let tail = seq!['/'] + "test-library"@;
    let head = "/tmp/steamlocate-test-"@;
    assert(steam_place().last() == 'm');
    assert(library_place(a) =~= head + decimal(a + 1) + tail);
    assert(library_place(b) =~= head + decimal(b + 1) + tail);
    assert(library_place(a).last() == 'y');
    if a != b && library_place(a) == library_place(b) {
        let x = decimal(a + 1);
        let y = decimal(b + 1);
        assert((head + x + tail).len() == head.len() + x.len() + tail.len());
        assert((head + y + tail).len() == head.len() + y.len() + tail.len());
        assert(x.len() == y.len());
        assert forall|k: int| 0 <= k < x.len() implies x[k] == y[k] by {
            assert((head + x + tail)[head.len() + k] == x[k]);
            assert((head + y + tail)[head.len() + k] == y[k]);
        }
        assert(x =~= y);
        lemma_decimal_texts_differ(a + 1, b + 1);
    }
}

/// Each library of a made-up installation holds the apps that were put
/// into it, whatever the file that lists the folders says: a library that
/// is made of its directory has exactly their ids.
pub proof fn lemma_made_up_library(
    files: Snapshot,
    libraries: Seq<TempLibrary>,
    number: int,
    stored: Seq<AppFile>,
)
    requires
        files.roots@.len() == 1 + libraries.len(),
        files.roots@[0].name@ == steam_place(),
        forall|i: int|
            0 <= i < libraries.len() ==> is_library_root(
                #[trigger] files.roots@[1 + i],
                library_place(i as nat),
                libraries[i],
            ),
        0 <= number < libraries.len(),
        libraries[number].holds(stored),
    ensures
        listing(below(files.at(library_place(number as nat)), "steamapps"@)) matches Ok(entries)
            && manifest_ids(entries) == first_ids(stored),
        forall|i: int|
            0 <= i < stored.len() ==> holds_app(
                files,
                library_place(number as nat),
                (#[trigger] stored[i]).id,
            ),
{
    broadcast use vstd::std_specs::vec::group_vec_axioms;

    let roots = files.roots@;
    let place = library_place(number as nat);
    assert(roots.len() == files.roots.len());
    lemma_root_is_found(files, libraries, number, 0);
    let root = roots[1 + number];
    assert(is_library_root(root, place, libraries[number]));
    let top = root.item->Dir_0;
    assert(index_of(top@, "steamapps"@, 0) == Some(0int));
    let entries = libraries[number].steamapps@;
    lemma_ids_of_steamapps(entries, stored);
    assert forall|i: int| 0 <= i < stored.len() implies holds_app(
        files,
        place,
        (#[trigger] stored[i]).id,
    ) by {
        lemma_first_ids(stored, i);
    }
}

/// The directory of a library of a made-up installation is found on the
/// made-up disk under the library's own place.
pub proof fn lemma_root_is_found(
    files: Snapshot,
    libraries: Seq<TempLibrary>,
    number: int,
    from: int,
)
    requires
        files.roots@.len() == 1 + libraries.len(),
        files.roots@.len() <= usize::MAX,
        files.roots@[0].name@ == steam_place(),
        forall|i: int|
            0 <= i < libraries.len() ==> is_library_root(
                #[trigger] files.roots@[1 + i],
                library_place(i as nat),
                libraries[i],
            ),
        0 <= number < libraries.len(),
        0 <= from <= 1 + number,
    ensures
        index_of(files.roots@, library_place(number as nat), from) == Some(1 + number),
    decreases 1 + number - from,
{
    let roots = files.roots@;
    if from < 1 + number {
        if from == 0 {
            lemma_places_differ(number as nat, number as nat);
        } else {
            assert(is_library_root(roots[1 + (from - 1)], library_place((from - 1) as nat), libraries[from - 1]));
            lemma_places_differ(number as nat, (from - 1) as nat);
        }
        lemma_root_is_found(files, libraries, number, from + 1);
    } else {
        assert(is_library_root(roots[1 + number], library_place(number as nat), libraries[number]));
    }
}

} // verus!
