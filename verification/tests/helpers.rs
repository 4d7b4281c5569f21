use steamlocate::document::Document;
use steamlocate::files::Item;
use steamlocate::helpers::{
    setup_libraryfolders_file, signed_text, AppFile, LibraryFolder, SampleApp, TempDir,
    TempLibrary, TempSteamDir, TempSteamDirBuilder,
};
use steamlocate::library::library_paths_in;

#[test]
fn sample_apps() {
    assert_eq!(SampleApp::GarrysMod.id(), 4_000);
    assert_eq!(SampleApp::GraveyardKeeper.id(), 599_140);
    assert_eq!(SampleApp::Warframe.id(), 230_410);
    assert_eq!(SampleApp::Resonite.id(), 2_519_830);
    assert_eq!(SampleApp::GarrysMod.install_dir(), "GarrysMod");
    assert_eq!(SampleApp::GraveyardKeeper.install_dir(), "Graveyard Keeper");
    for sample in [
        SampleApp::GarrysMod,
        SampleApp::GraveyardKeeper,
        SampleApp::Warframe,
        SampleApp::Resonite,
    ] {
        assert_eq!(sample.data(), (sample.id(), sample.install_dir(), sample.contents()));
        let file = AppFile::from(sample);
        assert_eq!(file, AppFile::of(sample));
        assert_eq!(file.id, sample.id());
        assert_eq!(file.install_dir, sample.install_dir());
        let app = steamlocate::App::from_manifest_str(&file.contents).unwrap();
        assert_eq!(app.app_id, sample.id());
        assert_eq!(app.install_dir, sample.install_dir());
    }
}

#[test]
fn __test_helpers_sanity() {
    let tmp_steam_dir = TempSteamDir::builder().app(SampleApp::GarrysMod.into()).finish();
    let steam_dir = tmp_steam_dir.steam_dir();
    assert!(steam_dir.find_app(SampleApp::GarrysMod.id()).unwrap().is_some());
}

#[test]
fn temp_dirs_differ() {
    assert_eq!(TempDir::new(0).path(), "/tmp/steamlocate-test-0");
    assert_eq!(TempDir::new(12).path(), "/tmp/steamlocate-test-12");
    assert_ne!(TempDir::new(1), TempDir::new(2));
}

#[test]
fn the_listing_that_is_written_reads_back() {
    let folders = vec![
        LibraryFolder::mostly_default("/steam".to_owned(), i32::MIN, vec![(4000, 5), (10, u64::MAX)]),
        LibraryFolder::mostly_default("/more".to_owned(), 1234, Vec::new()),
    ];
    assert_eq!(folders[0].totalsize, u64::MAX);
    assert_eq!(folders[1].totalsize, 0);
    assert_eq!(folders[1].update_clean_bytes_tally, 79_799_828_443);
    let text = setup_libraryfolders_file(&folders);
    assert_eq!(
        text,
        "\"libraryfolders\"\n{\n\t\"0\"\n\t{\n\t\t\"path\"\t\t\"/steam\"\n\t\t\"label\"\t\t\"\"\n\t\t\"contentid\"\t\t\"-2147483648\"\n\t\t\"totalsize\"\t\t\"18446744073709551615\"\n\t\t\"update_clean_bytes_tally\"\t\t\"79799828443\"\n\t\t\"time_last_update_corruption\"\t\t\"0\"\n\t\t\"apps\"\n\t\t{\n\t\t\t\"4000\"\t\t\"5\"\n\t\t\t\"10\"\t\t\"18446744073709551615\"\n\t\t}\n\t}\n\t\"1\"\n\t{\n\t\t\"path\"\t\t\"/more\"\n\t\t\"label\"\t\t\"\"\n\t\t\"contentid\"\t\t\"1234\"\n\t\t\"totalsize\"\t\t\"0\"\n\t\t\"update_clean_bytes_tally\"\t\t\"79799828443\"\n\t\t\"time_last_update_corruption\"\t\t\"0\"\n\t\t\"apps\"\n\t\t{\n\t\t}\n\t}\n}\n"
    );
    let document = Document::parse(&text).unwrap();
    assert_eq!(library_paths_in(&document).unwrap(), vec!["/steam", "/more"]);
    assert_eq!(signed_text(0), "0");
    assert_eq!(signed_text(-1), "-1");
    assert_eq!(signed_text(i32::MAX), "2147483647");
}

#[test]
fn what_a_made_up_installation_holds() {
    let library = TempLibrary::builder()
        .app(SampleApp::Warframe.into())
        .app(SampleApp::Resonite.into())
        .finish();
    assert_eq!(library.content_id, 1234);
    assert_eq!(library.apps, vec![(230410, 0), (2519830, 0)]);
    let names: Vec<_> = library.steamapps.iter().map(|entry| entry.name.as_str()).collect();
    assert_eq!(
        names,
        ["libraryfolder.vdf", "appmanifest_230410.acf", "appmanifest_2519830.acf", "common"]
    );
    match &library.steamapps[3].item {
        Item::Dir(dirs) => {
            let names: Vec<_> = dirs.iter().map(|entry| entry.name.as_str()).collect();
            assert_eq!(names, ["Warframe", "Resonite"]);
        }
        other => panic!("{other:?}"),
    }

    let tmp = TempSteamDirBuilder::new()
        .library(library)
        .library(TempLibrary::builder().finish())
        .app(SampleApp::GarrysMod.into())
        .finish();
    let steam_dir = tmp.steam_dir();
    assert_eq!(steam_dir.path(), "/tmp/steamlocate-test-0/test-steam-dir/Steam");
    assert_eq!(
        steam_dir.library_paths().unwrap(),
        vec![
            "/tmp/steamlocate-test-0/test-steam-dir/Steam",
            "/tmp/steamlocate-test-1/test-library",
            "/tmp/steamlocate-test-2/test-library",
        ]
    );
    let roots: Vec<_> = steam_dir.snapshot().roots.iter().map(|root| root.name.as_str()).collect();
    assert_eq!(roots, steam_dir.library_paths().unwrap());
    let mut libraries = steam_dir.libraries().unwrap();
    assert_eq!(libraries.next().unwrap().unwrap().app_ids(), &vec![4000]);
    assert_eq!(libraries.next().unwrap().unwrap().app_ids(), &vec![230410, 2519830]);
    assert_eq!(libraries.next().unwrap().unwrap().app_ids(), &Vec::<u32>::new());
    assert!(steam_dir.compat_tool_mapping().is_err());
    assert!(steam_dir.shortcuts().is_err());
}
