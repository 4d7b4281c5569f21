//! An installed app, ready to use: the manifest's fields with their
//! defaults filled in, the state flags spelled out, and the directory that
//! the app is installed in.

use std::collections::BTreeMap;

use vstd::prelude::*;
use vstd::string::*;

use crate::app::{
    flags_of, AllowOtherDownloadsWhileRunning, App, AutoUpdateBehavior, Depot, StateFlag,
    Universe, UnixTime,
};
use crate::error::{Error, ParseError};
use crate::files::{below, child, is_dir};
use crate::library::Library;
use crate::manifest::manifest_failure;
use crate::text::{join, joined};

verus! {

/// An installed app.
#[derive(Debug, Clone, PartialEq, Eq)]
pub struct SteamApp {
    /// The id of the app.
    pub app_id: u32,
    /// The directory that the app is installed in.
    pub path: String,
    /// The name of the app in the store.
    pub name: Option<String>,
    pub universe: Option<Universe>,
    pub launcher_path: Option<String>,
    pub state_flags: Option<Vec<StateFlag>>,
    pub last_updated: Option<UnixTime>,
    pub update_result: Option<u64>,
    pub size_on_disk: Option<u64>,
    pub build_id: Option<u64>,
    pub bytes_to_download: Option<u64>,
    pub bytes_downloaded: Option<u64>,
    pub bytes_to_stage: Option<u64>,
    pub bytes_staged: Option<u64>,
    pub staging_size: Option<u64>,
    pub target_build_id: Option<u64>,
    pub auto_update_behavior: AutoUpdateBehavior,
    pub allow_other_downloads_while_running: AllowOtherDownloadsWhileRunning,
    pub scheduled_auto_update: Option<UnixTime>,
    pub full_validate_before_next_update: bool,
    pub full_validate_after_next_update: bool,
    pub installed_depots: BTreeMap<u64, Depot>,
    pub staged_depots: BTreeMap<u64, Depot>,
    pub user_config: Vec<(String, String)>,
    pub mounted_config: Vec<(String, String)>,
    pub install_scripts: BTreeMap<u64, String>,
    pub shared_depots: BTreeMap<u64, u64>,
    /// The id of the user who last played the app.
    pub last_user: Option<u64>,
}

/// The directory that an app with the given install directory is installed
/// in, in the library folder at `library_path`.
pub open spec fn app_dir(library_path: Seq<char>, install_dir: Seq<char>) -> Seq<char> {
    joined(joined(joined(library_path, "steamapps"@), "common"@), install_dir)
}

impl SteamApp {
    /// Whether this is the app of the manifest `app` in the library folder
    /// at `library_path`: the path is that of the app's directory, the
    /// state flags are spelled out, a setting that the manifest leaves
    /// open has its default, a validation that the manifest does not ask
    /// for is not due, a schedule of zero is no schedule, and every other
    /// field is the manifest's.
    pub open spec fn describes(self, library_path: Seq<char>, app: App) -> bool {
        &&& self.app_id == app.app_id
        &&& self.path@ == app_dir(library_path, app.install_dir@)
        &&& self.name == app.name
        &&& self.universe == app.universe
        &&& self.launcher_path == app.launcher_path
        &&& match app.state_flags {
            Some(packed) => self.state_flags matches Some(flags) && flags@ == flags_of(packed.0),
            None => self.state_flags is None,
        }
        &&& self.last_updated == app.last_updated
        &&& self.update_result == app.update_result
        &&& self.size_on_disk == app.size_on_disk
        &&& self.build_id == app.build_id
        &&& self.bytes_to_download == app.bytes_to_download
        &&& self.bytes_downloaded == app.bytes_downloaded
        &&& self.bytes_to_stage == app.bytes_to_stage
        &&& self.bytes_staged == app.bytes_staged
        &&& self.staging_size == app.staging_size
        &&& self.target_build_id == app.target_build_id
        &&& self.auto_update_behavior == match app.auto_update_behavior {
            Some(behavior) => behavior,
            None => AutoUpdateBehavior::KeepUpToDate,
        }
        &&& self.allow_other_downloads_while_running
            == match app.allow_other_downloads_while_running {
            Some(setting) => setting,
            None => AllowOtherDownloadsWhileRunning::UseGlobalSetting,
        }
        &&& self.scheduled_auto_update == match app.scheduled_auto_update {
            Some(schedule) => schedule.time(),
            None => None,
        }
        &&& self.full_validate_before_next_update == (app.full_validate_before_next_update
            == Some(true))
        &&& self.full_validate_after_next_update == (app.full_validate_after_next_update == Some(
            true,
        ))
        &&& self.installed_depots == app.installed_depots
        &&& self.staged_depots == app.staged_depots
        &&& self.user_config == app.user_config
        &&& self.mounted_config == app.mounted_config
        &&& self.install_scripts == app.install_scripts
        &&& self.shared_depots == app.shared_depots
        &&& self.last_user == app.last_user
    }

    /// Makes the app of a manifest in the library folder at
    /// `library_path`.
    pub fn from_app(library_path: &str, app: App) -> (steam_app: SteamApp)
        ensures
            steam_app.describes(library_path@, app),
    {
        let steamapps = join(library_path, "steamapps");
        let common = join(steamapps.as_str(), "common");
        let path = join(common.as_str(), app.install_dir.as_str());
        let state_flags = match app.state_flags {
            Some(packed) => Some(StateFlag::flags_from_packed(packed.0)),
            None => None,
        };
        let auto_update_behavior = match app.auto_update_behavior {
            Some(behavior) => behavior,
            None => AutoUpdateBehavior::default(),
        };
        let allow_other_downloads_while_running = match app.allow_other_downloads_while_running {
            Some(setting) => setting,
            None => AllowOtherDownloadsWhileRunning::default(),
        };
        let scheduled_auto_update = match app.scheduled_auto_update {
            Some(schedule) => schedule.time(),
            None => None,
        };
        let full_validate_before_next_update = match app.full_validate_before_next_update {
            Some(due) => due,
            None => false,
        };
        let full_validate_after_next_update = match app.full_validate_after_next_update {
            Some(due) => due,
            None => false,
        };
        SteamApp {
            app_id: app.app_id,
            path,
            name: app.name,
            universe: app.universe,
            launcher_path: app.launcher_path,
            state_flags,
            last_updated: app.last_updated,
            update_result: app.update_result,
            size_on_disk: app.size_on_disk,
            build_id: app.build_id,
            bytes_to_download: app.bytes_to_download,
            bytes_downloaded: app.bytes_downloaded,
            bytes_to_stage: app.bytes_to_stage,
            bytes_staged: app.bytes_staged,
            staging_size: app.staging_size,
            target_build_id: app.target_build_id,
            auto_update_behavior,
            allow_other_downloads_while_running,
            scheduled_auto_update,
            full_validate_before_next_update,
            full_validate_after_next_update,
            installed_depots: app.installed_depots,
            staged_depots: app.staged_depots,
            user_config: app.user_config,
            mounted_config: app.mounted_config,
            install_scripts: app.install_scripts,
            shared_depots: app.shared_depots,
            last_user: app.last_user,
        }
    }

    /// Decodes the text of a manifest into the app that it describes in the
    /// library folder at `library_path`.
    pub fn from_manifest_str(library_path: &str, manifest: &str) -> (decoded: Result<
        SteamApp,
        ParseError,
    >)
        ensures
            match decoded {
                Ok(steam_app) => exists|app: App|
                    #![auto]
                    app.decoded_from_text(manifest@) && steam_app.describes(library_path@, app),
                Err(error) => manifest_failure(manifest@, error),
            },
    {
        let app = App::from_manifest_str(manifest)?;
        Ok(SteamApp::from_app(library_path, app))
    }

    /// Whether `outcome` is what asking a library for an installed app
    /// comes to: what asking it for the manifest comes to, but that an app
    /// whose directory is not there is missing.
    pub open spec fn installed_in(
        library: Library<'_>,
        app_id: u32,
        outcome: Option<Result<SteamApp, Error>>,
    ) -> bool {
        match outcome {
            None => library.answers(app_id, None),
            Some(Ok(steam_app)) => exists|app: App|
                #![auto]
                library.answers(app_id, Some(Ok(app))) && steam_app.describes(library.root(), app)
                    && is_dir(below(child(library.steamapps(), "common"@), app.install_dir@)),
            Some(Err(Error::MissingExpectedApp { app_id: missing })) => missing == app_id
                && exists|app: App|
                #![auto]
                library.answers(app_id, Some(Ok(app))) && !is_dir(
                    below(child(library.steamapps(), "common"@), app.install_dir@),
                ),
            Some(Err(error)) => library.answers(app_id, Some(Err(error))),
        }
    }

    /// Asks a library for an installed app: decodes its manifest, and
    /// takes the app for missing where its directory is not there.
    pub fn new(library: &Library<'_>, app_id: u32) -> (found: Option<Result<SteamApp, Error>>)
        ensures
            SteamApp::installed_in(*library, app_id, found),
    {
        match library.app(app_id) {
            None => None,
            Some(Err(error)) => {
                // Decoding a manifest never fails for want of an app.
                assert(!(error is MissingExpectedApp));
                Some(Err(error))
            },
            Some(Ok(app)) => {
                if library.has_app_dir(&app) {
                    Some(Ok(SteamApp::from_app(library.path(), app)))
                } else {
                    Some(Err(Error::MissingExpectedApp { app_id }))
                }
            },
        }
    }
}

} // verus!
