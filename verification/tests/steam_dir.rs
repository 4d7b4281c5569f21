use steamlocate::app::App;
use steamlocate::error::{Error, IoError, LocateError, ParseErrorInner, ParseErrorKind};
use steamlocate::files::{DirEntry, Item, Snapshot};
use steamlocate::helpers::{
    expect_test_env, AppFile, SampleApp, TempLibrary, TempSteamDir,
};
use steamlocate::locate::{Environment, Platform};
use steamlocate::SteamDir;

const CONFIG: &str = r#"
"InstallConfigStore"
{
	"Software"
	{
		"Valve"
		{
			"Steam"
			{
				"CompatToolMapping"
				{
					"4000"
					{
						"name"		"proton_411"
						"config"		""
						"priority"		"250"
					}
				}
			}
		}
	}
}
"#;

// An installation with two library folders (the installation acts as one),
// with Garry's Mod along with one other app, and with settings.
fn two_folder_env() -> TempSteamDir {
    TempSteamDir::builder()
        .app(SampleApp::GarrysMod.into())
        .library(TempLibrary::builder().app(SampleApp::GraveyardKeeper.into()).finish())
        .config(CONFIG.to_owned())
        .finish()
}

// An environment in which the installation of `tmp` is the one that is found.
fn env_of(tmp: &TempSteamDir) -> Environment {
    Environment {
        platform: Platform::Windows,
        home: None,
        snap_user_data: None,
        install_path: Ok(tmp.steam_dir().path().to_owned()),
        dirs: Vec::new(),
    }
}

fn all_apps_of(steam_dir: &SteamDir) -> Vec<App> {
    let mut libraries = steam_dir.libraries().unwrap();
    let mut all_apps = Vec::new();
    while let Some(maybe_library) = libraries.next() {
        let library = maybe_library.unwrap();
        let mut apps = library.apps();
        while let Some(maybe_app) = apps.next() {
            all_apps.push(maybe_app.unwrap());
        }
    }
    all_apps
}

const APP_ID: u32 = 4000;

#[test]
fn find_steam() {
    let tmp = two_folder_env();
    SteamDir::locate(&env_of(&tmp), tmp.steam_dir().snapshot()).unwrap();
}

#[test]
fn tests_find_library_folders() {
    let tmp = two_folder_env();
    let steam_dir = SteamDir::locate(&env_of(&tmp), tmp.steam_dir().snapshot()).unwrap();
    assert!(steam_dir.libraries().unwrap().len() > 1);
}

#[test]
fn tests_find_app() {
    let tmp = two_folder_env();
    let steam_dir = SteamDir::locate(&env_of(&tmp), tmp.steam_dir().snapshot()).unwrap();
    let steam_app = steam_dir.find_app(APP_ID).unwrap();
    assert_eq!(steam_app.unwrap().0.app_id, APP_ID);
}

#[test]
fn tests_app_details() {
    let tmp = two_folder_env();
    let steam_dir = SteamDir::locate(&env_of(&tmp), tmp.steam_dir().snapshot()).unwrap();
    let steam_app = steam_dir.find_app(APP_ID).unwrap().unwrap();
    assert_eq!(steam_app.0.name.unwrap(), "Garry's Mod");
}

#[test]
fn tests_all_apps() {
    let tmp = two_folder_env();
    let steam_dir = SteamDir::locate(&env_of(&tmp), tmp.steam_dir().snapshot()).unwrap();
    let all_apps = all_apps_of(&steam_dir);
    assert!(all_apps.len() > 1);
}

#[test]
fn tests_all_apps_get_one() {
    let tmp = two_folder_env();
    let steam_dir = SteamDir::locate(&env_of(&tmp), tmp.steam_dir().snapshot()).unwrap();
    let all_apps = all_apps_of(&steam_dir);
    assert!(!all_apps.is_empty());
    assert!(all_apps.len() > 1);

    let steam_app = steam_dir.find_app(APP_ID).unwrap().unwrap();
    assert_eq!(
        all_apps
            .into_iter()
            .find(|app| app.app_id == APP_ID)
            .unwrap(),
        steam_app.0
    );
}

#[test]
fn tests_find_compatibility_tool() {
    let tmp = two_folder_env();
    let steamdir_found = SteamDir::locate(&env_of(&tmp), tmp.steam_dir().snapshot());
    assert!(steamdir_found.is_ok());

    let steamdir = steamdir_found.unwrap();

    let tools = steamdir.compat_tool_mapping().unwrap();
    let tool = tools.get(&APP_ID);
    assert!(tool.is_some());

    println!("{:#?}", tool.unwrap());
}

#[test]
fn legacy_find_library_folders() {
    let tmp_steam_dir = expect_test_env();
    let steam_dir = tmp_steam_dir.steam_dir();
    assert!(steam_dir.libraries().unwrap().len() > 1);
}

#[test]
fn legacy_find_app() {
    let gmod_id = SampleApp::GarrysMod.id();
    let tmp_steam_dir = expect_test_env();
    let steam_dir = tmp_steam_dir.steam_dir();
    let steam_app = steam_dir.find_app(gmod_id).unwrap();
    assert_eq!(steam_app.unwrap().0.app_id, gmod_id);
}

#[test]
fn legacy_app_details() {
    let gmod_id = SampleApp::GarrysMod.id();
    let tmp_steam_dir = expect_test_env();
    let steam_dir = tmp_steam_dir.steam_dir();
    let steam_app = steam_dir.find_app(gmod_id).unwrap().unwrap();
    assert_eq!(steam_app.0.name.unwrap(), "Garry's Mod");
}

#[test]
fn legacy_all_apps() {
    let tmp_steam_dir = expect_test_env();
    let steam_dir = tmp_steam_dir.steam_dir();
    let all_apps = all_apps_of(&steam_dir);
    assert!(all_apps.len() > 1);
}

#[test]
fn legacy_all_apps_get_one() {
    let gmod_id = SampleApp::GarrysMod.id();
    let tmp_steam_dir = expect_test_env();
    let steam_dir = tmp_steam_dir.steam_dir();

    let all_apps = all_apps_of(&steam_dir);
    assert!(!all_apps.is_empty());
    assert!(all_apps.len() > 1);

    let steam_app = steam_dir.find_app(gmod_id).unwrap().unwrap();
    assert_eq!(
        all_apps
            .into_iter()
            .find(|app| app.app_id == gmod_id)
            .unwrap(),
        steam_app.0,
    );
}

#[test]
fn legacy_find_compatibility_tool() {
    let tmp = two_folder_env();
    let steamdir = tmp.steam_dir();

    let tools = steamdir.compat_tool_mapping().unwrap();
    let tool = tools.get(&APP_ID);
    assert!(tool.is_some());
    assert_eq!(tool.unwrap().name.as_deref(), Some("proton_411"));
    assert_eq!(tool.unwrap().config.as_deref(), Some(""));
    assert_eq!(tool.unwrap().priority, Some(250));

    println!("{:#?}", tool.unwrap());
}

// Context: a manifest that writes `lastupdated` in small letters.
#[test]
fn tests_app_lastupdated_casing() {
    let sample_app = SampleApp::Resonite;
    let temp_steam_dir = TempSteamDir::builder().app(sample_app.into()).finish();
    let steam_dir = temp_steam_dir.steam_dir();

    let (app, _library) = steam_dir.find_app(sample_app.id()).unwrap().unwrap();
    // Last updated _should_ be `Some(_)` for this app even though it uses lowercase casing
    let _ = app.last_updated.unwrap();
}

#[test]
fn helpers_sanity() {
    let tmp_steam_dir = TempSteamDir::builder().app(AppFile::from(SampleApp::GarrysMod)).finish();
    let steam_dir = tmp_steam_dir.steam_dir();
    assert!(steam_dir.find_app(SampleApp::GarrysMod.id()).unwrap().is_some());
}

#[test]
fn three_apps_in_two_libraries() {
    let tmp = TempSteamDir::builder()
        .app(SampleApp::GarrysMod.into())
        .app(SampleApp::GraveyardKeeper.into())
        .library(TempLibrary::builder().app(SampleApp::Warframe.into()).finish())
        .finish();
    let steam_dir = tmp.steam_dir();

    let mut libraries = steam_dir.libraries().unwrap();
    assert_eq!(libraries.len(), 2);
    let root = libraries.next().unwrap().unwrap();
    let auxiliary = libraries.next().unwrap().unwrap();
    assert!(libraries.next().is_none());
    assert_eq!(root.app_ids(), &vec![4000, 599140]);
    assert_eq!(auxiliary.app_ids(), &vec![230410]);
    assert_eq!(root.app_ids().len() + auxiliary.app_ids().len(), 3);

    let (app, library) = steam_dir.find_app(4000).unwrap().unwrap();
    assert_eq!(app.app_id, 4000);
    assert_eq!(library.path(), steam_dir.path());
    assert_eq!(library.path(), root.path());

    let (app, library) = steam_dir.find_app(230410).unwrap().unwrap();
    assert_eq!(app.name.as_deref(), Some("Warframe"));
    assert_eq!(library.path(), auxiliary.path());
    assert_eq!(
        library.resolve_app_dir(&app),
        format!("{}/steamapps/common/Warframe", auxiliary.path())
    );
    assert!(library.has_app_dir(&app));

    assert!(steam_dir.find_app(1).unwrap().is_none());
}

fn text_file(name: &str, contents: &str) -> DirEntry {
    DirEntry { name: name.to_owned(), item: Item::File(contents.as_bytes().to_vec()) }
}

fn dir(name: &str, entries: Vec<DirEntry>) -> DirEntry {
    DirEntry { name: name.to_owned(), item: Item::Dir(entries) }
}

#[test]
fn directory_decides_what_a_library_holds() {
    // The listing claims app 4000 for the library; the directory holds
    // the manifest of app 230410 alone.
    let listing = r#"
"libraryfolders"
{
	"0"
	{
		"path"		"/steam"
		"apps"
		{
			"4000"		"123"
		}
	}
}
"#;
    let files = Snapshot {
        roots: vec![dir(
            "/steam",
            vec![dir(
                "steamapps",
                vec![
                    text_file("libraryfolders.vdf", listing),
                    text_file("appmanifest_230410.acf", SampleApp::Warframe.contents()),
                    text_file("appmanifest_12x.acf", "junk"),
                    text_file("appmanifest_.acf", "junk"),
                    text_file("manifest_4000.acf", "junk"),
                    text_file("appmanifest_4000.acf.bak", "junk"),
                    text_file("appmanifest_99999999999.acf", "junk"),
                ],
            )],
        )],
    };
    let steam_dir = SteamDir::from_dir("/steam", &files).unwrap();
    assert_eq!(steam_dir.library_paths().unwrap(), vec!["/steam".to_owned()]);
    let library = steam_dir.libraries().unwrap().next().unwrap().unwrap();
    assert_eq!(library.app_ids(), &vec![230410]);
    assert!(library.app(4000).is_none());
    assert!(steam_dir.find_app(4000).unwrap().is_none());
    assert_eq!(library.app(230410).unwrap().unwrap().app_id, 230410);
}

#[test]
fn a_manifest_that_fails_fails_alone() {
    let files = Snapshot {
        roots: vec![dir(
            "/lib",
            vec![dir(
                "steamapps",
                vec![
                    text_file("appmanifest_1.acf", "\"AppState\" { \"appid\" \"1\" }"),
                    text_file("appmanifest_2.acf", "\"AppState\" { \"appid\" \"2\" \"installdir\" \"Two\" }"),
                    text_file("appmanifest_3.acf", "\"AppState\" { "),
                    DirEntry {
                        name: "appmanifest_4.acf".to_owned(),
                        item: Item::Unreadable(IoError {
                            kind: steamlocate::error::IoErrorKind::PermissionDenied,
                            message: "denied".to_owned(),
                        }),
                    },
                    DirEntry { name: "appmanifest_5.acf".to_owned(), item: Item::File(vec![0xff]) },
                ],
            )],
        )],
    };
    let library = steamlocate::Library::from_dir("/lib", &files).unwrap();
    assert_eq!(library.app_ids(), &vec![1, 2, 3, 4, 5]);
    let mut apps = library.apps();
    match apps.next() {
        Some(Err(Error::Parse { kind: ParseErrorKind::App, error, path })) => {
            assert_eq!(
                error.inner,
                ParseErrorInner::Decode(steamlocate::error::DecodeError::MissingField)
            );
            assert_eq!(path, "/lib/steamapps/appmanifest_1.acf");
        }
        other => panic!("{other:?}"),
    }
    assert_eq!(apps.next().unwrap().unwrap().install_dir, "Two");
    match apps.next() {
        Some(Err(Error::Parse { kind: ParseErrorKind::App, error, path })) => {
            assert!(matches!(error.inner, ParseErrorInner::Parse(_)));
            assert_eq!(path, "/lib/steamapps/appmanifest_3.acf");
        }
        other => panic!("{other:?}"),
    }
    match apps.next() {
        Some(Err(Error::Io { inner, path })) => {
            assert_eq!(inner.kind, steamlocate::error::IoErrorKind::PermissionDenied);
            assert_eq!(path, "/lib/steamapps/appmanifest_4.acf");
        }
        other => panic!("{other:?}"),
    }
    match apps.next() {
        Some(Err(Error::Io { inner, .. })) => {
            assert_eq!(inner.kind, steamlocate::error::IoErrorKind::InvalidData);
        }
        other => panic!("{other:?}"),
    }
    assert!(apps.next().is_none());
    assert!(apps.next().is_none());
}

#[test]
fn not_a_directory_is_no_installation() {
    let files = Snapshot { roots: vec![text_file("/file", "")] };
    assert!(matches!(SteamDir::from_dir("/file", &files), Err(Error::InvalidSteamDir(_))));
    assert!(matches!(SteamDir::from_dir("/nothing", &files), Err(Error::InvalidSteamDir(_))));
    let env = Environment {
        platform: Platform::Other,
        home: None,
        snap_user_data: None,
        install_path: Ok(String::new()),
        dirs: Vec::new(),
    };
    assert!(matches!(
        SteamDir::locate(&env, &files),
        Err(Error::FailedLocate(LocateError::Unsupported))
    ));
}
