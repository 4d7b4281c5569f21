use steamlocate::error::{Error, IoError, IoErrorKind, ParseErrorInner, ParseErrorKind};
use steamlocate::files::{DirEntry, Item, Snapshot};
use steamlocate::shortcut::Iter;
use steamlocate::SteamDir;

fn shortcut(app_id: u8, name: &str) -> Vec<u8> {
    let mut bytes = vec![0x02];
    bytes.extend_from_slice(b"appid\x00");
    bytes.extend_from_slice(&[app_id, 0, 0, 0]);
    bytes.extend_from_slice(b"\x01AppName\x00");
    bytes.extend_from_slice(name.as_bytes());
    bytes.extend_from_slice(b"\x00\x01Exe\x00exe\x00\x01StartDir\x00dir\x00");
    bytes
}

fn dir(name: &str, entries: Vec<DirEntry>) -> DirEntry {
    DirEntry { name: name.to_owned(), item: Item::Dir(entries) }
}

fn user(name: &str, shortcuts: Item) -> DirEntry {
    dir(name, vec![dir("config", vec![DirEntry { name: "shortcuts.vdf".to_owned(), item: shortcuts }])])
}

fn installation(users: Vec<DirEntry>) -> Snapshot {
    Snapshot { roots: vec![dir("/steam", vec![dir("userdata", users)])] }
}

#[test]
fn shortcuts_of_all_users() {
    let two = [shortcut(1, "one"), shortcut(2, "two")].concat();
    let files = installation(vec![
        user("100", Item::File(two)),
        dir("101", Vec::new()),
        dir("102", vec![dir("config", Vec::new())]),
        user("103", Item::File(Vec::new())),
        user("104", Item::File(b"\x02appid\x00\x01".to_vec())),
        user(
            "105",
            Item::Unreadable(IoError {
                kind: IoErrorKind::PermissionDenied,
                message: "denied".to_owned(),
            }),
        ),
        user("106", Item::Unreadable(IoError { kind: IoErrorKind::NotFound, message: String::new() })),
        user("107", Item::Dir(Vec::new())),
        DirEntry {
            name: "108".to_owned(),
            item: Item::Unreadable(IoError {
                kind: IoErrorKind::PermissionDenied,
                message: "locked".to_owned(),
            }),
        },
        user("109", Item::File(shortcut(3, "three"))),
    ]);
    let steam_dir = SteamDir::from_dir("/steam", &files).unwrap();
    let mut shortcuts = steam_dir.shortcuts().unwrap();

    let one = shortcuts.next().unwrap().unwrap();
    assert_eq!((one.app_id, one.app_name.as_str()), (1, "one"));
    assert_eq!(one.executable, "exe");
    assert_eq!(one.start_dir, "dir");
    let two = shortcuts.next().unwrap().unwrap();
    assert_eq!((two.app_id, two.app_name.as_str()), (2, "two"));
    match shortcuts.next() {
        Some(Err(Error::Parse { kind: ParseErrorKind::Shortcut, error, path })) => {
            assert_eq!(error.inner, ParseErrorInner::UnexpectedStructure);
            assert_eq!(path, "/steam/userdata/104/config/shortcuts.vdf");
        }
        other => panic!("{other:?}"),
    }
    match shortcuts.next() {
        Some(Err(Error::Io { inner, path })) => {
            assert_eq!(inner.kind, IoErrorKind::PermissionDenied);
            assert_eq!(inner.message, "denied");
            assert_eq!(path, "/steam/userdata/105/config/shortcuts.vdf");
        }
        other => panic!("{other:?}"),
    }
    match shortcuts.next() {
        Some(Err(Error::Io { inner, path })) => {
            assert_eq!(inner.kind, IoErrorKind::Other);
            assert_eq!(path, "/steam/userdata/107/config/shortcuts.vdf");
        }
        other => panic!("{other:?}"),
    }
    // A user's directory that cannot be read is a failure, not an absence.
    match shortcuts.next() {
        Some(Err(Error::Io { inner, path })) => {
            assert_eq!(inner.kind, IoErrorKind::PermissionDenied);
            assert_eq!(inner.message, "locked");
            assert_eq!(path, "/steam/userdata/108/config/shortcuts.vdf");
        }
        other => panic!("{other:?}"),
    }
    let three = shortcuts.next().unwrap().unwrap();
    assert_eq!((three.app_id, three.app_name.as_str()), (3, "three"));
    assert_eq!(three.duplicate(), three);
    assert!(shortcuts.next().is_none());
    assert!(shortcuts.next().is_none());
}

#[test]
fn no_users_no_shortcuts() {
    let files = installation(Vec::new());
    let steam_dir = SteamDir::from_dir("/steam", &files).unwrap();
    assert!(steam_dir.shortcuts().unwrap().next().is_none());

    let bare = Snapshot { roots: vec![dir("/steam", Vec::new())] };
    let steam_dir = SteamDir::from_dir("/steam", &bare).unwrap();
    match steam_dir.shortcuts() {
        Err(Error::Parse { kind: ParseErrorKind::Shortcut, error, path }) => {
            assert_eq!(error.inner, ParseErrorInner::Missing);
            assert_eq!(path, "/steam/userdata");
        }
        other => panic!("{:?}", other.map(|_| ())),
    }
    let locked = Snapshot {
        roots: vec![dir(
            "/steam",
            vec![DirEntry {
                name: "userdata".to_owned(),
                item: Item::Unreadable(IoError {
                    kind: IoErrorKind::PermissionDenied,
                    message: "locked".to_owned(),
                }),
            }],
        )],
    };
    let steam_dir = SteamDir::from_dir("/steam", &locked).unwrap();
    match steam_dir.shortcuts() {
        Err(Error::Io { inner, path }) => {
            assert_eq!(inner.kind, IoErrorKind::PermissionDenied);
            assert_eq!(path, "/steam/userdata");
        }
        other => panic!("{:?}", other.map(|_| ())),
    }
    assert!(Iter::new("/steam", None).is_err());
    assert!(Iter::new("/steam", Some(&Item::File(Vec::new()))).is_err());
}
