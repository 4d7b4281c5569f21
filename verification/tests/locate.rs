use steamlocate::error::{BackendErrorInner, Error, IoError, IoErrorKind, LocateError};
use steamlocate::files::{DirEntry, Item, Snapshot};
use steamlocate::locate::{
    linux_candidates, locate_steam_dir, locate_steam_dir_helper, take_unique, Environment,
    InstallationType, Platform, Probe,
};
use steamlocate::SteamDir;

fn env(platform: Platform, home: Option<&str>, dirs: Vec<Probe>) -> Environment {
    Environment {
        platform,
        home: home.map(str::to_owned),
        snap_user_data: None,
        install_path: Err(IoError { kind: IoErrorKind::NotFound, message: "no key".to_owned() }),
        dirs,
    }
}

fn there(path: &str) -> Probe {
    Probe { path: path.to_owned(), link: None }
}

fn link(path: &str, to: &str) -> Probe {
    Probe { path: path.to_owned(), link: Some(to.to_owned()) }
}

#[test]
fn places_on_linux() {
    let places = linux_candidates("/home/u", "/snap");
    let expected = [
        ("/home/u/.var/app/com.valvesoftware.Steam/.local/share/Steam", InstallationType::LinuxFlatpak),
        ("/home/u/.var/app/com.valvesoftware.Steam/.steam/steam", InstallationType::LinuxFlatpak),
        ("/home/u/.var/app/com.valvesoftware.Steam/.steam/root", InstallationType::LinuxFlatpak),
        ("/home/u/.local/share/Steam", InstallationType::LinuxStandard),
        ("/home/u/.steam/steam", InstallationType::LinuxStandard),
        ("/home/u/.steam/root", InstallationType::LinuxStandard),
        ("/home/u/.steam/debian-installation", InstallationType::LinuxStandard),
        ("/snap/steam/common/.local/share/Steam", InstallationType::LinuxSnap),
        ("/snap/steam/common/.steam/steam", InstallationType::LinuxSnap),
        ("/snap/steam/common/.steam/root", InstallationType::LinuxSnap),
    ];
    assert_eq!(places.len(), expected.len());
    for (place, (path, kind)) in places.iter().zip(expected) {
        assert_eq!(place.0, path);
        assert_eq!(place.1, kind);
    }
}

#[test]
fn one_directory_is_found_once() {
    let dirs = vec![
        there("/home/u/.local/share/Steam"),
        link("/home/u/.steam/steam", "/home/u/.local/share/Steam"),
        link("/home/u/.steam/root", "/home/u/.local/share/Steam"),
        there("/home/u/snap/steam/common/.steam/steam"),
        there("/somewhere/else"),
    ];
    let found = locate_steam_dir(&env(Platform::Linux, Some("/home/u"), dirs)).unwrap();
    assert_eq!(
        found,
        vec![
            ("/home/u/.local/share/Steam".to_owned(), InstallationType::LinuxStandard),
            ("/home/u/snap/steam/common/.steam/steam".to_owned(), InstallationType::LinuxSnap),
        ]
    );

    // A link that comes first is taken, and what it leads to is not taken again.
    let places = vec![
        ("/b".to_owned(), InstallationType::LinuxStandard),
        ("/a".to_owned(), InstallationType::LinuxFlatpak),
        ("/c".to_owned(), InstallationType::LinuxSnap),
        ("/d".to_owned(), InstallationType::LinuxSnap),
    ];
    let dirs = vec![link("/b", "/a"), there("/a"), link("/c", "/x"), link("/d", "/x")];
    assert_eq!(
        take_unique(places, &dirs),
        vec![
            ("/b".to_owned(), InstallationType::LinuxStandard),
            ("/c".to_owned(), InstallationType::LinuxSnap),
        ]
    );
    assert_eq!(take_unique(Vec::new(), &dirs), Vec::new());
}

#[test]
fn snap_data_is_where_the_variable_says() {
    let mut env = env(Platform::Linux, Some("/home/u"), vec![
        there("/home/u/snap/steam/common/.steam/root"),
        there("/data/steam/common/.steam/root"),
    ]);
    assert_eq!(
        locate_steam_dir_helper(&env).unwrap(),
        vec![("/home/u/snap/steam/common/.steam/root".to_owned(), InstallationType::LinuxSnap)]
    );
    env.snap_user_data = Some("/data".to_owned());
    assert_eq!(
        locate_steam_dir_helper(&env).unwrap(),
        vec![("/data/steam/common/.steam/root".to_owned(), InstallationType::LinuxSnap)]
    );
    env.dirs.clear();
    assert_eq!(locate_steam_dir_helper(&env).unwrap(), Vec::new());
}

#[test]
fn other_platforms() {
    let found = locate_steam_dir(&env(Platform::Macos, Some("/Users/u"), Vec::new())).unwrap();
    assert_eq!(
        found,
        vec![(
            "/Users/u/Library/Application Support/Steam".to_owned(),
            InstallationType::MacosStandard
        )]
    );

    let mut windows = env(Platform::Windows, None, Vec::new());
    match locate_steam_dir(&windows) {
        Err(Error::FailedLocate(LocateError::Backend(error))) => {
            assert!(matches!(
                error.inner,
                BackendErrorInner::Registry(IoError { kind: IoErrorKind::NotFound, .. })
            ));
        }
        other => panic!("{other:?}"),
    }
    windows.install_path = Ok("C:\\Program Files (x86)\\Steam".to_owned());
    assert_eq!(
        locate_steam_dir(&windows).unwrap(),
        vec![("C:\\Program Files (x86)\\Steam".to_owned(), InstallationType::WindowsStandard)]
    );

    for platform in [Platform::Linux, Platform::Macos] {
        match locate_steam_dir(&env(platform, None, Vec::new())) {
            Err(Error::FailedLocate(LocateError::Backend(error))) => {
                assert!(matches!(error.inner, BackendErrorInner::NoHome));
            }
            other => panic!("{other:?}"),
        }
    }
    assert!(matches!(
        locate_steam_dir(&env(Platform::Other, Some("/home/u"), Vec::new())),
        Err(Error::FailedLocate(LocateError::Unsupported))
    ));
    assert_eq!(InstallationType::default(), InstallationType::WindowsStandard);
}

#[test]
fn locating_installations() {
    let dir = |path: &str| DirEntry { name: path.to_owned(), item: Item::Dir(Vec::new()) };
    let files = Snapshot {
        roots: vec![dir("/home/u/.steam/steam"), dir("/home/u/.var/app/com.valvesoftware.Steam/.steam/root")],
    };
    let both = env(Platform::Linux, Some("/home/u"), vec![
        there("/home/u/.steam/steam"),
        there("/home/u/.var/app/com.valvesoftware.Steam/.steam/root"),
    ]);
    let first = SteamDir::locate(&both, &files).unwrap();
    assert_eq!(first.path(), "/home/u/.var/app/com.valvesoftware.Steam/.steam/root");
    let all = SteamDir::locate_multiple(&both, &files).unwrap();
    assert_eq!(all.len(), 2);
    assert_eq!(all[0].path(), "/home/u/.var/app/com.valvesoftware.Steam/.steam/root");
    assert_eq!(all[1].path(), "/home/u/.steam/steam");

    // Nothing is found, or what is found was not read.
    let none = env(Platform::Linux, Some("/home/u"), Vec::new());
    assert!(matches!(SteamDir::locate(&none, &files), Err(Error::InvalidSteamDir(_))));
    assert_eq!(SteamDir::locate_multiple(&none, &files).unwrap().len(), 0);
    let unread = env(Platform::Linux, Some("/home/u"), vec![
        there("/home/u/.steam/steam"),
        there("/home/u/.steam/root"),
    ]);
    assert_eq!(SteamDir::locate(&unread, &files).unwrap().path(), "/home/u/.steam/steam");
    assert!(matches!(SteamDir::locate_multiple(&unread, &files), Err(Error::InvalidSteamDir(_))));
}
