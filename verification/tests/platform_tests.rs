use std::collections::BTreeMap;
use sound_manager_core::domain::settings::Settings;
use sound_manager_core::domain::sound_event::{event_by_name, event_by_type, EventType};
use sound_manager_core::errors::CoreError;
use sound_manager_core::platform::file_assoc::{
    is_all_associated, is_associated, open_command, prog_id, set_all_associated, set_associated, AssocOp, AssocState,
    SOUNDPACK_EXT, THS_EXT,
};
use sound_manager_core::platform::fs_admin::{command_outcome, grant_all};
use sound_manager_core::platform::imageres::{
    backup_check, empty_wav, extract_default, imageres_bak_path, imageres_old_path, imageres_path, is_patching_not_recommended,
    is_patching_possible, is_patching_required, patch_check, require_admin, restore_check, wave_resource_number, BackupAction,
};
use sound_manager_core::platform::registry_scheme::{
    already_setup, check_scheme_exists, copy_default_keys, current_value, expand_env, get_active_scheme, get_current_file,
    get_scheme_list, remove_writes, setup, uninstall_applies_default, uninstall_keys, SchemeInfo,
};
use sound_manager_core::platform::startup_sound::{flag_location, get_enabled, set_enabled, BOOT_ANIM_KEY, EDITION_OVERRIDES_KEY};
use sound_manager_core::platform::version::{
    info, is_11, is_7, is_at_least, is_at_least_10, is_at_least_7, is_at_least_8, is_at_least_vista, is_vista, VersionValues,
    WindowsVersionInfo,
};

fn ver(major: u32, minor: u32, build: u32) -> WindowsVersionInfo {
    WindowsVersionInfo { major, minor, build, friendly_name: String::new() }
}

#[test]
fn version_from_registry_values() {
    let v = info(&VersionValues {
        major_number: None,
        minor_number: None,
        current_version: Some("6.1".into()),
        build_number: None,
        build_string: Some("7601".into()),
        product_name: Some("Windows 7 Ultimate".into()),
    });
    assert_eq!((v.major, v.minor, v.build), (6, 1, 7601));
    assert_eq!(v.friendly_name, "Windows 7 Ultimate");
    let w11 = info(&VersionValues {
        major_number: Some(10),
        minor_number: Some(0),
        current_version: Some("6.3".into()),
        build_number: Some(22631),
        build_string: None,
        product_name: Some("Windows 10 Pro".into()),
    });
    assert_eq!((w11.major, w11.minor, w11.build), (10, 0, 22631));
    assert_eq!(w11.friendly_name, "Windows 11");
    let none = info(&VersionValues {
        major_number: None,
        minor_number: None,
        current_version: None,
        build_number: None,
        build_string: Some("abc".into()),
        product_name: None,
    });
    assert_eq!((none.major, none.minor, none.build), (0, 0, 0));
    assert_eq!(none.friendly_name, "Windows");
}

#[test]
fn version_predicates() {
    assert!(is_vista(&ver(6, 0, 6000)) && !is_vista(&ver(6, 1, 7600)));
    assert!(is_7(&ver(6, 1, 7600)));
    assert!(is_at_least(&ver(6, 2, 9200), 6, 1) && !is_at_least(&ver(5, 9, 0), 6, 0));
    assert!(is_at_least_vista(&ver(6, 0, 0)) && !is_at_least_vista(&ver(5, 1, 2600)));
    assert!(is_at_least_7(&ver(6, 1, 0)) && !is_at_least_7(&ver(6, 0, 0)));
    assert!(is_at_least_8(&ver(10, 0, 0)) && !is_at_least_8(&ver(6, 1, 0)));
    assert!(is_at_least_10(&ver(10, 0, 0)) && !is_at_least_10(&ver(6, 3, 0)));
    assert!(is_11(&ver(10, 0, 22000)) && !is_11(&ver(10, 0, 21999)));
}

#[test]
fn imageres_paths_and_flags() {
    assert_eq!(imageres_path(Some("D:\\Win")), "D:\\Win\\System32\\imageres.dll");
    assert_eq!(imageres_bak_path(None), "C:\\Windows\\System32\\imageres.dll.bak");
    assert_eq!(imageres_old_path(None), "C:\\Windows\\System32\\imageres.dll.old");
    assert_eq!(wave_resource_number(&ver(6, 0, 0)), 5051);
    assert_eq!(wave_resource_number(&ver(6, 1, 0)), 5080);
    assert!(is_patching_possible(&ver(6, 0, 0)) && !is_patching_possible(&ver(5, 1, 0)));
    assert!(is_patching_required(&ver(6, 1, 0)) && !is_patching_required(&ver(6, 2, 0)));
    assert!(is_patching_not_recommended(&ver(10, 0, 0)));
    assert!(require_admin(true).is_ok());
    assert!(matches!(require_admin(false), Err(CoreError::Permission(m)) if m == "admin required to patch imageres.dll"));
    let w = empty_wav();
    assert_eq!(&w[..4], b"RIFF");
}

#[test]
fn imageres_checks() {
    let xp = ver(5, 1, 2600);
    let seven = ver(6, 1, 7601);
    assert!(matches!(backup_check(&xp, true, true, false), Err(CoreError::Patching(m)) if m == "not possible on this Windows version"));
    assert!(matches!(backup_check(&seven, false, true, false), Err(CoreError::Patching(m)) if m == "imageres.dll not found"));
    assert!(matches!(backup_check(&seven, true, false, false), Err(CoreError::Permission(_))));
    assert_eq!(backup_check(&seven, true, true, false).unwrap(), BackupAction::CreateBackup);
    assert_eq!(backup_check(&seven, true, true, true).unwrap(), BackupAction::GrantExistingBackup);
    assert_eq!(restore_check(&seven, false, false).unwrap(), false);
    assert_eq!(restore_check(&seven, true, true).unwrap(), true);
    let p = patch_check(&seven, true, false, true, true).unwrap();
    assert!(p.backup_first && p.use_replacement);
    let src = extract_default(&seven, None, true, true).unwrap();
    assert_eq!(src.dll_path, "C:\\Windows\\System32\\imageres.dll.bak");
    assert_eq!((src.resource_id, src.locale), (5080, 1033));
}

#[test]
fn scheme_list_and_active() {
    let names = vec![
        (".Default".to_string(), Some("Windows Default".to_string())),
        ("".to_string(), Some("ignored".to_string())),
        ("Mine".to_string(), Some("@mmres.dll,-800".to_string())),
        ("Blank".to_string(), Some("   ".to_string())),
        ("NoValue".to_string(), None),
    ];
    let list = get_scheme_list(&names);
    let pairs: Vec<(&str, &str)> = list.iter().map(|s| (s.internal_name.as_str(), s.display_name.as_str())).collect();
    assert_eq!(pairs, vec![(".Default", "Windows Default"), ("Mine", "Mine"), ("Blank", "Blank"), ("NoValue", "NoValue")]);
    let active = get_active_scheme(Some("Mine"), &list).unwrap();
    assert_eq!(active.display_name, "Mine");
    assert!(get_active_scheme(Some("Other"), &list).is_none());
    assert!(get_active_scheme(None, &list).is_none());
    assert!(already_setup(Some("Sound Manager")) && !already_setup(None));
    assert!(check_scheme_exists("X", Some("x")).is_ok());
    assert!(matches!(check_scheme_exists("X", None), Err(CoreError::Scheme(m)) if m == "scheme 'X' does not exist"));
}

#[test]
fn setup_writes() {
    let mut s = Settings::default();
    s.disabled_sound_events.push("Shutdown".into());
    let w = setup(&s, "C:\\M", true);
    assert_eq!(w[0], ("AppEvents\\Schemes\\Names\\SoundManager".to_string(), "Sound Manager".to_string()));
    assert_eq!(w[1], ("AppEvents\\Schemes\\Apps\\.Default\\SystemStart\\SoundManager".to_string(), "C:\\M\\Startup.wav".to_string()));
    assert_eq!(w[2].1, "<DISABLED>");
    let select = w.iter().find(|(k, _)| k.contains("CCSelect")).unwrap();
    assert_eq!(select.1, "<DISABLED>");
    // 32 events, one with three keys and one with two
    assert_eq!(w.len(), 1 + 32 + 2 + 1);
}

#[test]
fn current_value_rules() {
    assert_eq!(current_value(Some("a.wav"), true, None, false, false), "a.wav");
    assert_eq!(current_value(Some("gone.wav"), false, Some(Some("def.wav")), true, true), "def.wav");
    assert_eq!(current_value(Some("gone.wav"), false, Some(Some("def.wav")), true, false), "");
    assert_eq!(current_value(Some("<DISABLED>"), false, Some(Some("def.wav")), true, true), "");
    assert_eq!(current_value(None, false, Some(None), false, true), "");
}

#[test]
fn env_expansion_and_current_file() {
    let vars = vec![("SystemRoot".to_string(), "C:\\Windows".to_string())];
    assert_eq!(expand_env("%SystemRoot%\\Media\\%SystemRoot%.wav", &vars), "C:\\Windows\\Media\\C:\\Windows.wav");
    assert_eq!(expand_env("%Other%", &vars), "%Other%");
    let c = vec![None, Some(("a".to_string(), false)), Some(("b".to_string(), true)), Some(("c".to_string(), true))];
    assert_eq!(get_current_file(&c), Some("b".to_string()));
    assert_eq!(get_current_file(&vec![]), None);
}

#[test]
fn removal_and_uninstall_keys() {
    let balloon = event_by_name("Balloon").unwrap();
    let keys = copy_default_keys(&balloon, None);
    assert_eq!(keys[2], "AppEvents\\Schemes\\Apps\\Explorer\\SystemNotification\\.Default");
    let startup = event_by_type(EventType::Startup);
    assert_eq!(copy_default_keys(&startup, Some("Mine")), vec!["AppEvents\\Schemes\\Apps\\.Default\\SystemStart\\Mine".to_string()]);
    assert_eq!(
        remove_writes(&startup),
        vec![("AppEvents\\Schemes\\Apps\\.Default\\SystemStart\\SoundManager".to_string(), "<DISABLED>".to_string())]
    );
    let apps = vec![(".Default".to_string(), vec!["A".to_string(), "B".to_string()]), ("Explorer".to_string(), vec![])];
    assert_eq!(
        uninstall_keys(&apps),
        vec![
            "AppEvents\\Schemes\\Apps\\.Default\\A\\SoundManager".to_string(),
            "AppEvents\\Schemes\\Apps\\.Default\\B\\SoundManager".to_string(),
        ]
    );
    let mgr = SchemeInfo { internal_name: "SoundManager".into(), display_name: "Sound Manager".into() };
    assert!(uninstall_applies_default(Some(&mgr)));
    assert!(!uninstall_applies_default(None));
}

#[test]
fn file_association() {
    assert_eq!(prog_id(THS_EXT), "SoundManager.ths");
    assert_eq!(open_command("C:\\SM.exe"), "\"C:\\SM.exe\" \"%1\"");
    let exe = "C:\\SM.exe";
    let good = AssocState { current_prog_id: Some("SoundManager.ths".into()), current_command: Some(open_command(exe)) };
    assert!(is_associated(THS_EXT, &good, exe));
    let other = AssocState { current_prog_id: Some("Other".into()), current_command: Some(open_command(exe)) };
    assert!(!is_associated(THS_EXT, &other, exe));
    let none = AssocState { current_prog_id: None, current_command: None };
    assert!(!is_associated(SOUNDPACK_EXT, &none, exe));
    let pack = AssocState { current_prog_id: Some("SoundManager.soundpack".into()), current_command: Some(open_command(exe)) };
    assert!(is_all_associated(&good, &pack, exe));
    assert!(!is_all_associated(&good, &none, exe));

    let ops = set_associated(THS_EXT, true, exe);
    assert_eq!(ops.len(), 4);
    assert!(matches!(&ops[0], AssocOp::SetDefault { key, value } if key == "Software\\Classes\\.ths" && value == "SoundManager.ths"));
    assert!(matches!(&ops[1], AssocOp::SetDefault { key, value }
        if key == "Software\\Classes\\SoundManager.ths\\shell\\open\\command" && value == "\"C:\\SM.exe\" \"%1\""));
    assert!(matches!(&ops[2], AssocOp::SetDefault { key, value } if key == "Software\\Classes\\SoundManager.ths" && value == "Sound Manager ths file"));
    assert!(matches!(&ops[3], AssocOp::NotifyShell));
    let del = set_associated(SOUNDPACK_EXT, false, exe);
    assert!(matches!(&del[0], AssocOp::DeleteTree { key } if key == "Software\\Classes\\.soundpack"));
    assert!(matches!(&del[1], AssocOp::DeleteTree { key } if key == "Software\\Classes\\SoundManager.soundpack"));
    assert_eq!(set_all_associated(false, exe).len(), 6);
}

#[test]
fn startup_sound_flag() {
    assert_eq!(flag_location(&ver(10, 0, 22621)), (EDITION_OVERRIDES_KEY, "UserSetting_DisableStartupSound"));
    assert_eq!(flag_location(&ver(6, 1, 7601)), (BOOT_ANIM_KEY, "DisableStartupSound"));
    assert!(get_enabled(&ver(6, 1, 7601), Some(0)));
    assert!(!get_enabled(&ver(6, 1, 7601), Some(1)));
    assert!(get_enabled(&ver(6, 1, 7601), None));
    assert!(!get_enabled(&ver(6, 3, 9600), None));
    assert!(!get_enabled(&ver(10, 0, 19045), None));
    assert!(get_enabled(&ver(10, 0, 22000), None));
    assert_eq!(set_enabled(&ver(5, 1, 2600), true), None);
    assert_eq!(set_enabled(&ver(6, 1, 7601), false), Some((BOOT_ANIM_KEY, "DisableStartupSound", 1)));
    // what set_enabled writes reads back as the state set
    let (_, _, v) = set_enabled(&ver(10, 0, 22000), true).unwrap();
    assert!(get_enabled(&ver(10, 0, 22000), Some(v)));
}

#[test]
fn grant_all_commands_and_outcome() {
    let file = grant_all("C:\\x.dll", false);
    assert_eq!(file[0].program, "takeown");
    assert_eq!(file[0].args, vec!["/F", "C:\\x.dll"]);
    assert_eq!(file[1].program, "icacls");
    assert_eq!(file[1].args, vec!["C:\\x.dll", "/grant", "*S-1-5-32-544:F"]);
    let dir = grant_all("C:\\d", true);
    assert_eq!(dir[0].args, vec!["/F", "C:\\d", "/R", "/D", "Y"]);
    assert_eq!(dir[1].args, vec!["C:\\d", "/grant", "*S-1-5-32-544:F", "/T", "/C"]);
    assert_eq!(command_outcome("takeown", true, b"  done\r\n", b"").unwrap(), "done");
    assert!(matches!(command_outcome("icacls", false, b"", b" denied \n"), Err(CoreError::Permission(m)) if m == "icacls failed: denied"));
    assert_eq!(command_outcome("x", true, &[0x66, 0xff], b"").unwrap(), "f\u{fffd}");
}

#[test]
fn association_ops_read_back() {
    let exe = "C:\\Program Files\\SM\\SM.exe";
    let mut reg: BTreeMap<String, String> = BTreeMap::new();
    reg.insert("Software\\Classes\\.ths".into(), "OtherApp.ths".into());
    let apply = |reg: &mut BTreeMap<String, String>, ops: Vec<AssocOp>| {
        for op in ops {
            match op {
                AssocOp::SetDefault { key, value } => {
                    reg.insert(key, value);
                }
                AssocOp::DeleteTree { key } => {
                    let sub = format!("{key}\\");
                    reg.retain(|k, _| k != &key && !k.starts_with(&sub));
                }
                AssocOp::NotifyShell => {}
            }
        }
    };
    let state = |reg: &BTreeMap<String, String>| AssocState {
        current_prog_id: reg.get("Software\\Classes\\.ths").cloned(),
        current_command: reg.get("Software\\Classes\\SoundManager.ths\\shell\\open\\command").cloned(),
    };
    assert!(!is_associated(THS_EXT, &state(&reg), exe));
    apply(&mut reg, set_associated(THS_EXT, true, exe));
    assert!(is_associated(THS_EXT, &state(&reg), exe));
    apply(&mut reg, set_associated(THS_EXT, false, exe));
    assert!(!is_associated(THS_EXT, &state(&reg), exe));
    assert!(reg.is_empty());
}

fn apply_assoc(reg: &mut BTreeMap<String, String>, ops: Vec<AssocOp>) {
    for op in ops {
        match op {
            AssocOp::SetDefault { key, value } => {
                reg.insert(key, value);
            }
            AssocOp::DeleteTree { key } => {
                let sub = format!("{key}\\");
                reg.retain(|k, _| k != &key && !k.starts_with(&sub));
            }
            AssocOp::NotifyShell => {}
        }
    }
}

fn assoc_state(reg: &BTreeMap<String, String>, ext: &str) -> AssocState {
    AssocState {
        current_prog_id: reg.get(&format!("Software\\Classes\\.{ext}")).cloned(),
        current_command: reg.get(&format!("Software\\Classes\\SoundManager.{ext}\\shell\\open\\command")).cloned(),
    }
}

#[test]
fn set_all_associated_reads_back() {
    let exe = "C:\\SM.exe";
    let mut reg: BTreeMap<String, String> = BTreeMap::new();
    reg.insert("Software\\Classes\\.soundpack".into(), "Other".into());
    for wanted in [true, false, true] {
        apply_assoc(&mut reg, set_all_associated(wanted, exe));
        let all = is_all_associated(&assoc_state(&reg, THS_EXT), &assoc_state(&reg, SOUNDPACK_EXT), exe);
        assert_eq!(all, wanted);
    }
}

#[test]
fn setup_then_already_setup_then_uninstall() {
    let mut reg: BTreeMap<String, String> = BTreeMap::new();
    let names = "AppEvents\\Schemes\\Names\\SoundManager";
    assert!(!already_setup(reg.get(names).map(|s| s.as_str())));
    for (k, v) in setup(&Settings::default(), "C:\\M", false) {
        reg.insert(k, v);
    }
    assert!(already_setup(reg.get(names).map(|s| s.as_str())));
    let apps = vec![(".Default".to_string(), vec!["SystemStart".to_string()])];
    for k in uninstall_keys(&apps) {
        reg.remove(&k);
    }
    reg.remove(names);
    assert!(!already_setup(reg.get(names).map(|s| s.as_str())));
    assert!(!reg.contains_key("AppEvents\\Schemes\\Apps\\.Default\\SystemStart\\SoundManager"));
}
