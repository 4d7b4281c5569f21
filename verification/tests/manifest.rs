use std::collections::BTreeMap;

use steamlocate::app::{
    saturate, AllowOtherDownloadsWhileRunning, App, AutoUpdateBehavior, Depot, ScheduledAutoUpdate,
    StateFlag, StateFlags, Universe, UnixTime,
};
use steamlocate::document::{Document, Entry, Node};
use steamlocate::error::{DecodeError, ParseErrorInner};
use steamlocate::helpers::SampleApp;
use steamlocate::steamapp::SteamApp;

fn app_from_manifest_str(s: &str) -> App {
    App::from_manifest_str(s).unwrap()
}

fn fault_of(s: &str) -> ParseErrorInner {
    App::from_manifest_str(s).unwrap_err().inner
}

fn with_field(key: &str, value: &str) -> String {
    format!("\"AppState\" {{ \"appid\" \"7\" \"installdir\" \"Seven\" \"{key}\" \"{value}\" }}")
}

#[test]
fn minimal() {
    let minimal = r#"
"AppState"
{
	"appid"		"2519830"
	"installdir" "Resonite"
}
"#;

    let app = app_from_manifest_str(minimal);
    assert_eq!(
        app,
        App {
            app_id: 2519830,
            install_dir: "Resonite".to_owned(),
            name: None,
            last_user: None,
            universe: None,
            launcher_path: None,
            state_flags: None,
            last_updated: None,
            update_result: None,
            size_on_disk: None,
            build_id: None,
            bytes_to_download: None,
            bytes_downloaded: None,
            bytes_to_stage: None,
            bytes_staged: None,
            staging_size: None,
            target_build_id: None,
            auto_update_behavior: None,
            allow_other_downloads_while_running: None,
            scheduled_auto_update: None,
            full_validate_before_next_update: None,
            full_validate_after_next_update: None,
            installed_depots: BTreeMap::new(),
            staged_depots: BTreeMap::new(),
            user_config: Vec::new(),
            mounted_config: Vec::new(),
            install_scripts: BTreeMap::new(),
            shared_depots: BTreeMap::new(),
        }
    );
}

#[test]
fn app_sanity() {
    let app = app_from_manifest_str(SampleApp::Warframe.contents());
    assert_eq!(
        app,
        App {
            app_id: 230410,
            install_dir: "Warframe".to_owned(),
            name: Some("Warframe".to_owned()),
            last_user: Some(12312312312312312),
            universe: Some(Universe::Public),
            launcher_path: Some("C:\\Program Files (x86)\\Steam\\steam.exe".to_owned()),
            state_flags: Some(StateFlags(4)),
            last_updated: Some(UnixTime { secs: 1630871495 }),
            update_result: Some(2),
            size_on_disk: Some(29070834580),
            build_id: Some(6988007),
            bytes_to_download: Some(30804429728),
            bytes_downloaded: Some(30804429728),
            bytes_to_stage: Some(29070834580),
            bytes_staged: Some(29070834580),
            staging_size: None,
            target_build_id: None,
            auto_update_behavior: Some(AutoUpdateBehavior::KeepUpToDate),
            allow_other_downloads_while_running: Some(
                AllowOtherDownloadsWhileRunning::UseGlobalSetting
            ),
            scheduled_auto_update: Some(ScheduledAutoUpdate::Zero),
            full_validate_before_next_update: None,
            full_validate_after_next_update: None,
            installed_depots: BTreeMap::from([(
                230411,
                Depot { manifest: 1659398175797234554, size: 29070834580, dlc_app_id: Some(230410) }
            )]),
            staged_depots: BTreeMap::new(),
            user_config: vec![("language".to_owned(), "english".to_owned())],
            mounted_config: Vec::new(),
            install_scripts: BTreeMap::from([(230411, "installscript.vdf".to_owned())]),
            shared_depots: BTreeMap::new(),
        }
    );
}

#[test]
fn app_more_sanity() {
    let app = app_from_manifest_str(SampleApp::GraveyardKeeper.contents());
    assert_eq!(app.app_id, 599140);
    assert_eq!(app.install_dir, "Graveyard Keeper");
    assert_eq!(app.name.as_deref(), Some("Graveyard Keeper"));
    assert_eq!(app.launcher_path.as_deref(), Some("/usr/bin/steam"));
    assert_eq!(app.state_flags, Some(StateFlags(6)));
    assert_eq!(app.last_updated, Some(UnixTime { secs: 1672176869 }));
    assert_eq!(app.bytes_to_download, Some(24348080));
    assert_eq!(app.bytes_to_stage, Some(1284862702));
    assert_eq!(app.target_build_id, Some(8559806));
    assert_eq!(app.auto_update_behavior, Some(AutoUpdateBehavior::OnlyUpdateOnLaunch));
    assert_eq!(
        app.allow_other_downloads_while_running,
        Some(AllowOtherDownloadsWhileRunning::Allow)
    );
    assert_eq!(
        app.scheduled_auto_update,
        Some(ScheduledAutoUpdate::Time(UnixTime { secs: 1678457806 }))
    );
    assert_eq!(app.full_validate_before_next_update, None);
    assert_eq!(app.full_validate_after_next_update, Some(true));
    assert_eq!(
        app.installed_depots.get(&599143),
        Some(&Depot { manifest: 8776335556818666951, size: 1805798572, dlc_app_id: None })
    );
    assert_eq!(app.user_config, vec![("language".to_owned(), "english".to_owned())]);
    assert_eq!(app.mounted_config, vec![("language".to_owned(), "english".to_owned())]);
}

#[test]
fn steamapp_sanity() {
    let manifest = SampleApp::Warframe.contents();
    let app = SteamApp::from_manifest_str("C:\\redact\\me", manifest).unwrap();
    assert_eq!(app.app_id, 230410);
    assert_eq!(app.path, "C:\\redact\\me/steamapps/common/Warframe");
    assert_eq!(app.state_flags, Some(vec![StateFlag::FullyInstalled]));
    assert_eq!(app.scheduled_auto_update, None);
    assert_eq!(app.auto_update_behavior, AutoUpdateBehavior::KeepUpToDate);
    assert!(!app.full_validate_before_next_update);
    assert!(!app.full_validate_after_next_update);
    assert_eq!(app.last_user, Some(12312312312312312));
}

#[test]
fn steamapp_more_sanity() {
    let manifest = SampleApp::GraveyardKeeper.contents();
    let app = SteamApp::from_manifest_str("/redact/me", manifest).unwrap();
    assert_eq!(app.path, "/redact/me/steamapps/common/Graveyard Keeper");
    assert_eq!(
        app.state_flags,
        Some(vec![StateFlag::UpdateRequired, StateFlag::FullyInstalled])
    );
    assert_eq!(app.scheduled_auto_update, Some(UnixTime { secs: 1678457806 }));
    assert_eq!(app.auto_update_behavior, AutoUpdateBehavior::OnlyUpdateOnLaunch);
    assert_eq!(
        app.allow_other_downloads_while_running,
        AllowOtherDownloadsWhileRunning::Allow
    );
    assert!(app.full_validate_after_next_update);

    // What the manifest leaves open has its default.
    let bare = SteamApp::from_manifest_str("/lib", SampleApp::Resonite.contents()).unwrap();
    assert_eq!(bare.auto_update_behavior, AutoUpdateBehavior::default());
    assert_eq!(
        bare.allow_other_downloads_while_running,
        AllowOtherDownloadsWhileRunning::default()
    );
    assert_eq!(bare.state_flags, Some(vec![StateFlag::FullyInstalled]));
    assert_eq!(bare.last_updated, Some(UnixTime { secs: 1702688752 }));
}

#[test]
fn schedule_of_zero_is_no_schedule() {
    let app = app_from_manifest_str(&with_field("ScheduledAutoUpdate", "0"));
    assert_eq!(app.scheduled_auto_update, Some(ScheduledAutoUpdate::Zero));
    assert_eq!(app.scheduled_auto_update.unwrap().time(), None);

    let app = app_from_manifest_str(&with_field("ScheduledAutoUpdate", "1678457806"));
    assert_eq!(
        app.scheduled_auto_update.unwrap().time(),
        Some(UnixTime { secs: 1678457806 })
    );

    let app = app_from_manifest_str(&with_field("ScheduledAutoUpdate", "18446744073709551615"));
    assert_eq!(app.scheduled_auto_update.unwrap().time(), Some(UnixTime { secs: u64::MAX }));

    let app = app_from_manifest_str(&with_field("name", "no schedule at all"));
    assert_eq!(app.scheduled_auto_update, None);
}

#[test]
fn times_beyond_the_clock_are_held_at_its_end() {
    assert_eq!(saturate(0, 10), 0);
    assert_eq!(saturate(10, 10), 10);
    assert_eq!(saturate(11, 10), 10);
    assert_eq!(saturate(u64::MAX, 9_223_372_036_854_775_807), 9_223_372_036_854_775_807);
    assert_eq!(saturate(5, u64::MAX), 5);
    assert_eq!(saturate(u64::MAX, u64::MAX), u64::MAX);
}

#[test]
fn last_update_of_zero_is_no_update() {
    assert_eq!(app_from_manifest_str(&with_field("LastUpdated", "0")).last_updated, None);
    assert_eq!(app_from_manifest_str(&with_field("lastupdated", "0")).last_updated, None);
    assert_eq!(
        app_from_manifest_str(&with_field("LastUpdated", "1")).last_updated,
        Some(UnixTime { secs: 1 })
    );
    assert_eq!(
        app_from_manifest_str(&with_field("lastupdated", "2")).last_updated,
        Some(UnixTime { secs: 2 })
    );
    // Other casings are other keys.
    assert_eq!(app_from_manifest_str(&with_field("LASTUPDATED", "3")).last_updated, None);
}

#[test]
fn unknown_values_are_kept() {
    let app = app_from_manifest_str(&with_field("Universe", "7"));
    assert_eq!(app.universe, Some(Universe::Unknown(7)));
    let app = app_from_manifest_str(&with_field("Universe", "4"));
    assert_eq!(app.universe, Some(Universe::Dev));
    let app = app_from_manifest_str(&with_field("AutoUpdateBehavior", "3"));
    assert_eq!(app.auto_update_behavior, Some(AutoUpdateBehavior::Unknown(3)));
    let app = app_from_manifest_str(&with_field("AutoUpdateBehavior", "2"));
    assert_eq!(app.auto_update_behavior, Some(AutoUpdateBehavior::UpdateWithHighPriority));
    let app = app_from_manifest_str(&with_field("AllowOtherDownloadsWhileRunning", "99"));
    assert_eq!(
        app.allow_other_downloads_while_running,
        Some(AllowOtherDownloadsWhileRunning::Unknown(99))
    );
    let app = app_from_manifest_str(&with_field("AllowOtherDownloadsWhileRunning", "2"));
    assert_eq!(
        app.allow_other_downloads_while_running,
        Some(AllowOtherDownloadsWhileRunning::Never)
    );
    assert_eq!(Universe::from(0), Universe::Invalid);
    assert_eq!(Universe::from(2), Universe::Beta);
    assert_eq!(Universe::from(3), Universe::Internal);
    assert_eq!(Universe::from(5), Universe::Unknown(5));
}

#[test]
fn missing_and_malformed_fields() {
    let missing = ParseErrorInner::Decode(DecodeError::MissingField);
    let invalid = ParseErrorInner::Decode(DecodeError::InvalidValue);
    assert_eq!(fault_of("\"AppState\" { \"installdir\" \"x\" }"), missing);
    assert_eq!(fault_of("\"AppState\" { \"appid\" \"1\" }"), missing);
    assert_eq!(fault_of("\"AppState\" { }"), missing);
    // A missing field is told before a malformed one.
    assert_eq!(fault_of("\"AppState\" { \"appid\" \"x\" }"), missing);
    assert_eq!(fault_of("\"AppState\" { \"appid\" \"x\" \"installdir\" \"d\" }"), invalid);
    assert_eq!(fault_of("\"AppState\" { \"appid\" \"4294967296\" \"installdir\" \"d\" }"), invalid);
    assert_eq!(fault_of("\"AppState\" { \"appid\" { } \"installdir\" \"d\" }"), invalid);
    assert_eq!(fault_of("\"AppState\" { \"appid\" \"1\" \"installdir\" { } }"), invalid);
    assert_eq!(fault_of("\"AppState\" \"text\""), invalid);
    assert_eq!(fault_of(&with_field("SizeOnDisk", "18446744073709551616")), invalid);
    assert_eq!(fault_of(&with_field("SizeOnDisk", "")), invalid);
    assert_eq!(fault_of(&with_field("SizeOnDisk", " 5")), invalid);
    assert_eq!(fault_of(&with_field("SizeOnDisk", "-5")), invalid);
    assert_eq!(fault_of(&with_field("SizeOnDisk", "5a")), invalid);
    assert_eq!(fault_of(&with_field("SizeOnDisk", "+")), invalid);
    assert_eq!(fault_of(&with_field("FullValidateBeforeNextUpdate", "2")), invalid);
    assert_eq!(fault_of(&with_field("FullValidateAfterNextUpdate", "true")), invalid);
    assert_eq!(fault_of(&with_field("InstalledDepots", "text")), invalid);
    assert_eq!(fault_of(&with_field("UserConfig", "text")), invalid);
    assert!(matches!(fault_of("\"AppState\" {"), ParseErrorInner::Parse(_)));
    assert!(matches!(fault_of(""), ParseErrorInner::Parse(_)));

    let app = app_from_manifest_str(&with_field("SizeOnDisk", "+5"));
    assert_eq!(app.size_on_disk, Some(5));
    let app = app_from_manifest_str(&with_field("SizeOnDisk", "0007"));
    assert_eq!(app.size_on_disk, Some(7));
    let app = app_from_manifest_str(&with_field("SizeOnDisk", "18446744073709551615"));
    assert_eq!(app.size_on_disk, Some(u64::MAX));
    let app = app_from_manifest_str(&with_field("FullValidateBeforeNextUpdate", "0"));
    assert_eq!(app.full_validate_before_next_update, Some(false));
}

#[test]
fn depots_and_other_mappings() {
    let manifest = r#"
"AppState"
{
	"appid"		"1"
	"installdir"		"One"
	"InstalledDepots"
	{
		"10"	{ "manifest" "100" "size" "1000" }
		"9"	{ "manifest" "90" "size" "900" "dlcappid" "5" }
	}
	"StagedDepots"
	{
		"3"	{ "manifest" "30" "size" "300" }
	}
	"InstallScripts"
	{
		"7"		"a\\b.vdf"
	}
	"SharedDepots"
	{
		"228988"		"228980"
	}
	"UserConfig"
	{
		"b"		"2"
		"a"		"1"
	}
}
"#;
    let app = app_from_manifest_str(manifest);
    assert_eq!(
        app.installed_depots,
        BTreeMap::from([
            (9, Depot { manifest: 90, size: 900, dlc_app_id: Some(5) }),
            (10, Depot { manifest: 100, size: 1000, dlc_app_id: None }),
        ])
    );
    assert_eq!(
        app.staged_depots,
        BTreeMap::from([(3, Depot { manifest: 30, size: 300, dlc_app_id: None })])
    );
    assert_eq!(app.install_scripts, BTreeMap::from([(7, "a\\b.vdf".to_owned())]));
    assert_eq!(app.shared_depots, BTreeMap::from([(228988, 228980)]));
    assert_eq!(
        app.user_config,
        vec![("a".to_owned(), "1".to_owned()), ("b".to_owned(), "2".to_owned())]
    );

    let invalid = ParseErrorInner::Decode(DecodeError::InvalidValue);
    let depots = |inner: &str| {
        format!(
            "\"AppState\" {{ \"appid\" \"1\" \"installdir\" \"d\" \"InstalledDepots\" {{ {inner} }} }}"
        )
    };
    assert_eq!(fault_of(&depots("\"x\" { \"manifest\" \"1\" \"size\" \"1\" }")), invalid);
    assert_eq!(fault_of(&depots("\"1\" { \"size\" \"1\" }")), invalid);
    assert_eq!(fault_of(&depots("\"1\" { \"manifest\" \"1\" }")), invalid);
    assert_eq!(fault_of(&depots("\"1\" \"text\"")), invalid);
    assert_eq!(
        fault_of(&depots("\"1\" { \"manifest\" \"1\" \"size\" \"1\" \"dlcappid\" \"x\" }")),
        invalid
    );
}

#[test]
fn decoding_a_document_made_by_hand() {
    let text = |s: &str| Node::Str(s.to_owned());
    let entry = |key: &str, value: Node| Entry { key: key.to_owned(), values: vec![value] };
    let document = Document {
        key: "Whatever".to_owned(),
        value: Node::Obj(vec![
            entry("appid", text("12")),
            Entry { key: "name".to_owned(), values: vec![text("first"), text("second")] },
            entry("installdir", text("Twelve")),
            entry("appid", text("13")),
        ]),
    };
    let app = App::from_document(&document).unwrap();
    assert_eq!(app.app_id, 12);
    assert_eq!(app.name.as_deref(), Some("first"));
    assert_eq!(app.install_dir, "Twelve");

    let empty = Document {
        key: "AppState".to_owned(),
        value: Node::Obj(vec![
            entry("appid", text("12")),
            entry("installdir", text("Twelve")),
            Entry { key: "name".to_owned(), values: Vec::new() },
        ]),
    };
    assert_eq!(App::from_document(&empty), Err(DecodeError::InvalidValue));
    let none = Document { key: "AppState".to_owned(), value: text("12") };
    assert_eq!(App::from_document(&none), Err(DecodeError::InvalidValue));
}

#[test]
fn parsing_a_document() {
    let document = Document::parse(
        "// a comment\n\"Top\"\n{\n\t\"b\"\t\"1\"\n\t\"a\"\t\"q\\\"uote\"\n\tbare\tword\n\t\"b\"\t{ \"in\" \"2\" }\n}\n",
    )
    .unwrap();
    let text = |s: &str| Node::Str(s.to_owned());
    assert_eq!(
        document,
        Document {
            key: "Top".to_owned(),
            value: Node::Obj(vec![
                Entry { key: "a".to_owned(), values: vec![text("q\"uote")] },
                Entry {
                    key: "b".to_owned(),
                    values: vec![
                        text("1"),
                        Node::Obj(vec![Entry { key: "in".to_owned(), values: vec![text("2")] }])
                    ]
                },
                Entry { key: "bare".to_owned(), values: vec![text("word")] },
            ]),
        }
    );
    assert_eq!(
        Document::parse("key value").unwrap(),
        Document { key: "key".to_owned(), value: text("value") }
    );
    assert!(matches!(Document::parse("\"a\" {").unwrap_err().inner, ParseErrorInner::Parse(_)));
    assert!(matches!(Document::parse("\"a\" \"b").unwrap_err().inner, ParseErrorInner::Parse(_)));
    assert!(matches!(Document::parse("").unwrap_err().inner, ParseErrorInner::Parse(_)));
}
