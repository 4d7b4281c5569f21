use steamlocate::config::{parse_compat_tools, Store};
use steamlocate::document::Document;
use steamlocate::error::{
    DecodeError, Error, IoError, IoErrorKind, LocateError, ParseError, ParseErrorInner,
    ParseErrorKind, ValidationError,
};
use steamlocate::files::Item;

#[test]
fn what_failures_say() {
    assert_eq!(
        Error::locate(LocateError::no_home()).message(),
        "Failed locating the steam dir. Error: Unable to locate the user's $HOME"
    );
    assert_eq!(
        Error::locate(LocateError::Unsupported).message(),
        "Failed locating the steam dir. Error: Unsupported platform"
    );
    let io = IoError { kind: IoErrorKind::Other, message: "the key is gone".to_owned() };
    assert_eq!(
        Error::locate(LocateError::winreg(io.duplicate())).message(),
        "Failed locating the steam dir. Error: the key is gone"
    );
    assert_eq!(
        Error::validation(ValidationError::missing_dir()).message(),
        "Failed validating steam dir. Error: The Steam installation directory either isn't a directory or doesn't exist"
    );
    assert_eq!(
        Error::io(io, "/steam/x").message(),
        "Encountered an I/O error: the key is gone at /steam/x"
    );
    assert_eq!(
        Error::parse(ParseErrorKind::Shortcut, ParseError::unexpected_structure(), "/s").message(),
        "Failed parsing VDF file. File kind: Shortcut, Error: File did not match expected structure at /s"
    );
    assert_eq!(
        Error::parse(ParseErrorKind::LibraryFolders, ParseError::missing(), "/l").message(),
        "Failed parsing VDF file. File kind: LibraryFolders, Error: Expected file was missing at /l"
    );
    assert_eq!(
        Error::parse(ParseErrorKind::App, ParseError::from_parser("line 3".to_owned()), "/a")
            .message(),
        "Failed parsing VDF file. File kind: App, Error: line 3 at /a"
    );
    assert_eq!(
        Error::parse(ParseErrorKind::Config, ParseError::from_decode(DecodeError::MissingField), "/c")
            .message(),
        "Failed parsing VDF file. File kind: Config, Error: A required field of the file was missing at /c"
    );
    assert_eq!(
        ParseError::from_decode(DecodeError::InvalidValue).message(),
        "A field of the file held a value of an unexpected form"
    );
    assert_eq!(
        Error::MissingExpectedApp { app_id: 4000 }.message(),
        "Missing expected app with id: 4000"
    );
    assert_eq!(IoError::of_kind(IoErrorKind::NotFound).message(), "");
    assert_eq!(
        ParseError::new(ParseErrorInner::Missing).inner,
        ParseError::missing().inner
    );
}

fn tools_fault(text: &str) -> DecodeError {
    Store::from_document(&Document::parse(text).unwrap()).unwrap_err()
}

#[test]
fn compatibility_tools() {
    let settings = r#"
"InstallConfigStore"
{
	"Software"
	{
		"Valve"
		{
			"Steam"
			{
				"AutoUpdateWindowEnabled"		"0"
				"CompatToolMapping"
				{
					"0"	{ "name" "proton_experimental" "config" "" "priority" "75" }
					"1113280"	{ "name" "proton_63" "priority" "250" }
					"230410"	{ }
				}
			}
		}
	}
}
"#;
    let store = Store::from_document(&Document::parse(settings).unwrap()).unwrap();
    let tools = store.software.valve.steam.mapping;
    assert_eq!(tools.len(), 3);
    assert_eq!(tools[&0].name.as_deref(), Some("proton_experimental"));
    assert_eq!(tools[&0].config.as_deref(), Some(""));
    assert_eq!(tools[&0].priority, Some(75));
    assert_eq!(tools[&1113280].name.as_deref(), Some("proton_63"));
    assert_eq!(tools[&1113280].config, None);
    assert_eq!(tools[&230410].name, None);
    assert_eq!(tools[&230410].priority, None);

    assert_eq!(tools_fault("\"S\" \"text\""), DecodeError::InvalidValue);
    assert_eq!(tools_fault("\"S\" { }"), DecodeError::MissingField);
    assert_eq!(tools_fault("\"S\" { \"Software\" { } }"), DecodeError::MissingField);
    assert_eq!(tools_fault("\"S\" { \"Software\" \"x\" }"), DecodeError::InvalidValue);
    assert_eq!(
        tools_fault("\"S\" { \"Software\" { \"Valve\" { \"Steam\" { } } } }"),
        DecodeError::MissingField
    );
    let mapping = |inner: &str| {
        format!(
            "\"S\" {{ \"Software\" {{ \"Valve\" {{ \"Steam\" {{ \"CompatToolMapping\" {{ {inner} }} }} }} }} }}"
        )
    };
    assert_eq!(tools_fault(&mapping("\"x\" { }")), DecodeError::InvalidValue);
    assert_eq!(tools_fault(&mapping("\"1\" \"text\"")), DecodeError::InvalidValue);
    assert_eq!(tools_fault(&mapping("\"1\" { \"priority\" \"high\" }")), DecodeError::InvalidValue);
    assert_eq!(tools_fault(&mapping("\"1\" { \"name\" { } }")), DecodeError::InvalidValue);
    assert_eq!(tools_fault(&mapping("\"4294967296\" { }")), DecodeError::InvalidValue);
    assert!(Store::from_document(&Document::parse(&mapping("")).unwrap())
        .unwrap()
        .software
        .valve
        .steam
        .mapping
        .is_empty());

    match parse_compat_tools("/c.vdf", None) {
        Err(Error::Io { inner, path }) => {
            assert_eq!(inner.kind, IoErrorKind::NotFound);
            assert_eq!(path, "/c.vdf");
        }
        other => panic!("{other:?}"),
    }
    assert!(matches!(
        parse_compat_tools("/c.vdf", Some(&Item::File(b"\"S\" {".to_vec()))),
        Err(Error::Parse { kind: ParseErrorKind::Config, .. })
    ));
    match parse_compat_tools("/c.vdf", Some(&Item::File(b"\"S\" { }".to_vec()))) {
        Err(Error::Parse { kind: ParseErrorKind::Config, error, .. }) => {
            assert_eq!(error.inner, ParseErrorInner::Decode(DecodeError::MissingField));
        }
        other => panic!("{other:?}"),
    }
    let tools = parse_compat_tools("/c.vdf", Some(&Item::File(settings.as_bytes().to_vec()))).unwrap();
    assert_eq!(tools.len(), 3);
}
