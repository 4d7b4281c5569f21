use steamlocate::shortcut::{after_many_case_insensitive, parse_shortcuts, Shortcut};

const KEYS: [&str; 4] = ["appid", "AppName", "Exe", "StartDir"];

fn record(app_id: u32, keys: [&str; 4], name: &str, exe: &str, start_dir: &str) -> Vec<u8> {
    let mut bytes = Vec::new();
    bytes.extend_from_slice(b"\x000\x00");
    bytes.push(0x02);
    bytes.extend_from_slice(keys[0].as_bytes());
    bytes.push(0x00);
    bytes.extend_from_slice(&app_id.to_le_bytes());
    let texts = [(keys[1], name), (keys[2], exe), (keys[3], start_dir)];
    for (key, value) in texts {
        bytes.push(0x01);
        bytes.extend_from_slice(key.as_bytes());
        bytes.push(0x00);
        bytes.extend_from_slice(value.as_bytes());
        bytes.push(0x00);
    }
    bytes.extend_from_slice(b"\x01icon\x00\x00\x02IsHidden\x00\x00\x00\x00\x00\x08");
    bytes
}

fn file(records: Vec<Vec<u8>>) -> Vec<u8> {
    let mut bytes = Vec::new();
    bytes.extend_from_slice(b"\x00shortcuts\x00");
    for record in records {
        bytes.extend_from_slice(&record);
    }
    bytes.extend_from_slice(b"\x08\x08");
    bytes
}

#[test]
fn shortcut_sanity() {
    let contents = file(vec![
        record(2786274309, KEYS, "Anki", "\"anki\"", "\"./\""),
        record(2492174738, KEYS, "LibreOffice Calc", "\"libreoffice\"", "\"./\""),
        record(3703025501, KEYS, "foo.sh", "\"/usr/local/bin/foo.sh\"", "\"/usr/local/bin/\""),
    ]);
    let shortcuts = parse_shortcuts(&contents).unwrap();
    assert_eq!(
        shortcuts,
        vec![
            Shortcut {
                app_id: 2786274309,
                app_name: "Anki".into(),
                executable: "\"anki\"".into(),
                start_dir: "\"./\"".into(),
                steam_id: 0xe89614fe02000000,
            },
            Shortcut {
                app_id: 2492174738,
                app_name: "LibreOffice Calc".into(),
                executable: "\"libreoffice\"".into(),
                start_dir: "\"./\"".into(),
                steam_id: 0xdb01c79902000000,
            },
            Shortcut {
                app_id: 3703025501,
                app_name: "foo.sh".into(),
                executable: "\"/usr/local/bin/foo.sh\"".into(),
                start_dir: "\"/usr/local/bin/\"".into(),
                steam_id: 0x9d55017302000000,
            }
        ],
    );

    let contents = file(vec![record(
        2931025216,
        ["appid", "appname", "exe", "StartDir"],
        "Second Life",
        "\"/Applications/Second Life Viewer.app\"",
        "\"/Applications/\"",
    )]);
    let shortcuts = parse_shortcuts(&contents).unwrap();
    assert_eq!(
        shortcuts,
        vec![Shortcut {
            app_id: 2931025216,
            app_name: "Second Life".into(),
            executable: "\"/Applications/Second Life Viewer.app\"".into(),
            start_dir: "\"/Applications/\"".into(),
            steam_id: 0xfdd972df02000000,
        }]
    );
}

#[test]
fn key_casing_does_not_matter() {
    let plain = file(vec![record(7, KEYS, "Anki", "\"anki\"", "\"./\"")]);
    let mixed = file(vec![record(
        7,
        ["AppId", "APPNAME", "eXe", "startdir"],
        "Anki",
        "\"anki\"",
        "\"./\"",
    )]);
    assert_ne!(plain, mixed);
    assert_eq!(parse_shortcuts(&plain), parse_shortcuts(&mixed));
    assert_eq!(parse_shortcuts(&plain).unwrap().len(), 1);
}

#[test]
fn mixed_casing_reads_the_same_record() {
    let mixed = b"\x02AppId\x00\x07\x00\x00\x00\x01APPNAME\x00A\x00\x01exe\x00e\x00\x01startdir\x00d\x00";
    let plain = b"\x02appid\x00\x07\x00\x00\x00\x01AppName\x00A\x00\x01Exe\x00e\x00\x01StartDir\x00d\x00";
    let expected = Some(vec![Shortcut::new(7, "A".into(), "e".into(), "d".into())]);
    assert_eq!(parse_shortcuts(mixed), expected);
    assert_eq!(parse_shortcuts(plain), expected);
}

#[test]
fn searching_for_a_key() {
    let data = b"xx\x01Exe\x00yy";
    let mut pos = 0;
    assert!(after_many_case_insensitive(data, &mut pos, b"\x01EXE\x00"));
    assert_eq!(pos, 7);
    assert!(!after_many_case_insensitive(data, &mut pos, b"\x01EXE\x00"));
    assert_eq!(pos, data.len());
    // An empty key stands nowhere: the search uses up the data.
    let mut pos = 3;
    assert!(!after_many_case_insensitive(data, &mut pos, b""));
    assert_eq!(pos, data.len());
    let mut pos = 0;
    assert!(!after_many_case_insensitive(b"", &mut pos, b""));
    assert_eq!(pos, 0);
    // A cursor beyond the end is at the end.
    let mut pos = 100;
    assert!(!after_many_case_insensitive(data, &mut pos, b"x"));
    assert_eq!(pos, data.len());
    let mut pos = 1;
    assert!(after_many_case_insensitive(data, &mut pos, b"X"));
    assert_eq!(pos, 2);
}

#[test]
fn file_without_records_is_empty() {
    assert_eq!(parse_shortcuts(b""), Some(vec![]));
    assert_eq!(parse_shortcuts(b"\x00shortcuts\x00\x08\x08"), Some(vec![]));
}

#[test]
fn truncated_records_fail() {
    let whole = record(7, KEYS, "Anki", "\"anki\"", "\"./\"");
    // Cut inside the app id, inside the name, and before the start directory.
    assert_eq!(parse_shortcuts(&whole[..12]), None);
    assert_eq!(parse_shortcuts(&whole[..26]), None);
    let no_dir = b"\x02appid\x00\x01\x00\x00\x00\x01AppName\x00A\x00\x01Exe\x00e\x00";
    assert_eq!(parse_shortcuts(no_dir), None);
    let no_nul = b"\x02appid\x00\x01\x00\x00\x00\x01AppName\x00A\x00\x01Exe\x00e\x00\x01StartDir\x00d";
    assert_eq!(parse_shortcuts(no_nul), None);
    let done = b"\x02appid\x00\x01\x00\x00\x00\x01AppName\x00A\x00\x01Exe\x00e\x00\x01StartDir\x00d\x00";
    assert_eq!(parse_shortcuts(done).unwrap().len(), 1);
}

#[test]
fn steam_id_is_derived_from_checksum() {
    assert_eq!(Shortcut::steam_id_from_crc(0), 0x8000_0000_0200_0000);
    assert_eq!(Shortcut::steam_id_from_crc(0x6896_14fe), 0xe896_14fe_0200_0000);
    assert_eq!(Shortcut::steam_id_from_crc(0xffff_ffff), 0xffff_ffff_0200_0000);
    let shortcut = Shortcut::new(1, "Anki".into(), "\"anki\"".into(), "\"./\"".into());
    assert_eq!(shortcut.steam_id, 0xe89614fe02000000);
    // The executable comes first: swapping the two texts gives another id.
    let swapped = Shortcut::new(1, "\"anki\"".into(), "Anki".into(), "\"./\"".into());
    assert_ne!(swapped.steam_id, shortcut.steam_id);
}

#[test]
fn invalid_utf8_is_read_leniently() {
    let bytes = b"\x02appid\x00\x01\x00\x00\x00\x01AppName\x00A\xffB\x00\x01Exe\x00e\x00\x01StartDir\x00d\x00";
    let shortcuts = parse_shortcuts(bytes).unwrap();
    assert_eq!(shortcuts[0].app_name, "A\u{fffd}B");
}
