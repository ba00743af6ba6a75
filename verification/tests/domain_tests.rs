use sound_manager_core::domain::scheme_meta::{
    parse_scheme_info, serialize_scheme_info, scheme_image_path, scheme_info_path, media_dir, SchemeMeta,
};
use sound_manager_core::domain::settings::{parse_ini, settings_file, Settings};
use sound_manager_core::domain::sound_event::{all_events, default_media_dir, event_by_name, event_by_type, EventType};
use sound_manager_core::domain::translation::{
    builtin, get_in, load_locale, locale_candidates, locale_path, LanguageState, LocaleFile,
};
use sound_manager_core::errors::CoreError;

#[test]
fn all_events_unique() {
    let events = all_events();
    let mut names: Vec<&str> = events.iter().map(|e| e.internal_name).collect();
    names.sort();
    names.dedup();
    assert_eq!(names.len(), events.len());
}

#[test]
fn lookups_work() {
    assert_eq!(event_by_name("Startup").unwrap().internal_name, "Startup");
    assert!(event_by_name("Nope").is_none());
    assert_eq!(event_by_type(EventType::Shutdown).internal_name, "Shutdown");
}

#[test]
fn event_table_order_and_files() {
    let events = all_events();
    assert_eq!(events.len(), 32);
    assert_eq!(events[0].internal_name, "Startup");
    assert_eq!(events[30].internal_name, "LoadScheme");
    assert_eq!(events[31].internal_name, "Unlock");
    let startup = event_by_type(EventType::Startup);
    assert_eq!(startup.file_name(), "Startup.wav");
    assert_eq!(startup.legacy_name(), "Windows XP Démarrage.wav");
    assert_eq!(startup.file_path("C:\\Media"), "C:\\Media\\Startup.wav");
    assert_eq!(event_by_name("Question").unwrap().legacy_name(), "Windows XP .wav");
    assert_eq!(event_by_name("Balloon").unwrap().registry_keys.len(), 3);
}

#[test]
fn media_folder_paths() {
    assert_eq!(default_media_dir(Some("C:\\Users\\a\\AppData\\Roaming")), "C:\\Users\\a\\AppData\\Roaming\\SoundManager\\Media");
    assert_eq!(default_media_dir(None), ".\\SoundManager\\Media");
    assert_eq!(media_dir(Some("D:")), "D:SoundManager\\Media");
    assert_eq!(scheme_info_path("C:\\M"), "C:\\M\\Scheme.ini");
    assert_eq!(scheme_image_path("C:\\M\\"), "C:\\M\\Scheme.png");
}

#[test]
fn parse_standard() {
    let m = parse_scheme_info("[SchemeInfo]\r\nname=My Scheme\r\nauthor=Me\r\nabout=Hello\r\n");
    assert_eq!(m.name, "My Scheme");
    assert_eq!(m.author, "Me");
    assert_eq!(m.about, "Hello");
}

#[test]
fn parse_legacy_single_line() {
    let m = parse_scheme_info("name=\"Legacy\";author=\"Anon\";about=\"\"");
    assert_eq!(m.name, "Legacy");
    assert_eq!(m.author, "Anon");
}

#[test]
fn serialize_roundtrip() {
    let bytes = serialize_scheme_info("A", "B", "C");
    let m = parse_scheme_info(&String::from_utf8(bytes).unwrap());
    assert_eq!((m.name.as_str(), m.author.as_str(), m.about.as_str()), ("A", "B", "C"));
}

#[test]
fn serialize_exact_bytes() {
    let bytes = serialize_scheme_info("N", "A", "D");
    assert_eq!(bytes, b"[SchemeInfo]\r\nname=N\r\nauthor=A\r\nabout=D\r\n".to_vec());
}

#[test]
fn parse_french_legacy_fields() {
    let m = parse_scheme_info("[infos]\r\nnom=Thème\r\nauteur=Moi\r\ncommentaire=Salut\r\n");
    assert_eq!(m.name, "Thème");
    assert_eq!(m.author, "Moi");
    assert_eq!(m.about, "Salut");
}

#[test]
fn meta_save_then_load_keeps_fields() {
    let m = SchemeMeta { name: "Night".into(), author: "Ann".into(), about: "Calm sounds".into(), thumbnail_base64: String::new() };
    let files = m.save().unwrap();
    assert!(files.image.is_none());
    let back = SchemeMeta::load(Some(files.info.as_slice()), None);
    assert_eq!(back.name, "Night");
    assert_eq!(back.author, "Ann");
    assert_eq!(back.about, "Calm sounds");
    assert_eq!(back.thumbnail_base64, "");
}

#[test]
fn meta_load_encodes_thumbnail_and_skips_bad_utf8() {
    let m = SchemeMeta::load(Some(&[0xffu8, 0xfe, 0x00][..]), Some(&b"abc"[..]));
    assert_eq!(m.name, "");
    assert_eq!(m.thumbnail_base64, "YWJj");
    let none = SchemeMeta::load(None, None);
    assert_eq!(none.name, "");
    assert_eq!(none.thumbnail_base64, "");
}

#[test]
fn meta_save_png_thumbnail_kept_as_is() {
    // a PNG signature followed by arbitrary bytes is written unchanged
    let png: Vec<u8> = vec![0x89, b'P', b'N', b'G', 0x0D, 0x0A, 0x1A, 0x0A, 1, 2, 3];
    let m = SchemeMeta { name: "x".into(), author: "y".into(), about: "z".into(), thumbnail_base64: "iVBORw0KGgoBAgM=".into() };
    let files = m.save().unwrap();
    assert_eq!(files.image, Some(png));
}

#[test]
fn meta_save_bad_base64_is_archive_error() {
    let m = SchemeMeta { name: "x".into(), author: "y".into(), about: "z".into(), thumbnail_base64: "!!!".into() };
    match m.save() {
        Err(CoreError::Archive(msg)) => assert!(msg.starts_with("bad thumbnail base64: ")),
        other => panic!("unexpected {:?}", other.map(|_| ())),
    }
}

#[test]
fn meta_save_undecodable_image_is_decode_error() {
    // "AAAA" decodes to three zero bytes: not a PNG, not an image
    let m = SchemeMeta { name: "x".into(), author: "y".into(), about: "z".into(), thumbnail_base64: "AAAA".into() };
    match m.save() {
        Err(CoreError::Archive(msg)) => assert!(msg.starts_with("image decode: ")),
        other => panic!("unexpected {:?}", other.map(|_| ())),
    }
}

#[test]
fn meta_save_short_thumbnails() {
    // 5 zero bytes: neither a PNG nor an image, an Archive error
    let short = SchemeMeta { name: "x".into(), author: "y".into(), about: "z".into(), thumbnail_base64: "AAAAAAA=".into() };
    match short.save() {
        Err(CoreError::Archive(msg)) => assert!(msg.starts_with("image decode: ")),
        other => panic!("unexpected {:?}", other.map(|_| ())),
    }
    // 5 bytes that start the PNG signature are kept as they are
    let sig = SchemeMeta { name: "x".into(), author: "y".into(), about: "z".into(), thumbnail_base64: "iVBORw0=".into() };
    assert_eq!(sig.save().unwrap().image, Some(vec![0x89, b'P', b'N', b'G', 0x0D]));
    let empty = SchemeMeta { name: "x".into(), author: "y".into(), about: "z".into(), thumbnail_base64: String::new() };
    assert!(empty.save().unwrap().image.is_none());
}

#[test]
fn make_thumbnail_resizes_to_png() {
    let img = image::RgbImage::from_pixel(3, 2, image::Rgb([10, 20, 30]));
    let mut bmp = std::io::Cursor::new(Vec::new());
    image::DynamicImage::ImageRgb8(img).write_to(&mut bmp, image::ImageFormat::Bmp).unwrap();
    let png = sound_manager_core::domain::scheme_meta::make_thumbnail(&bmp.into_inner()).unwrap();
    assert_eq!(&png[..8], &[0x89, b'P', b'N', b'G', 0x0D, 0x0A, 0x1A, 0x0A]);
    assert_eq!(&png[8..16], &[0, 0, 0, 13, b'I', b'H', b'D', b'R']);
    assert_eq!(&png[16..24], &[0, 0, 0, 100, 0, 0, 0, 100]);
    let decoded = image::load_from_memory(&png).unwrap();
    assert_eq!((decoded.width(), decoded.height()), (100, 100));
}

#[test]
fn make_thumbnail_rejects_undecodable_bytes() {
    let r = sound_manager_core::domain::scheme_meta::make_thumbnail(b"no image here");
    match r {
        Err(CoreError::Archive(m)) => assert!(m.starts_with("image decode: ")),
        other => panic!("unexpected {:?}", other.is_ok()),
    }
}

#[test]
fn reset_all_uses_language_file_then_builtin() {
    let m = SchemeMeta::reset_all(None);
    assert_eq!(m.name, "Custom scheme");
    assert_eq!(m.author, "Unknown author");
    assert_eq!(m.about, "No description");
    let fr = SchemeMeta::reset_all(Some("{\"default_scheme_name\": \"Thème perso\"}"));
    assert_eq!(fr.name, "Thème perso");
    assert_eq!(fr.author, "Unknown author");
}

#[test]
fn event_to_play_on_load_order() {
    assert_eq!(SchemeMeta::event_to_play_on_load(true, true, None).internal_name, "LoadScheme");
    assert_eq!(SchemeMeta::event_to_play_on_load(false, false, None).internal_name, "Logon");
    assert_eq!(SchemeMeta::event_to_play_on_load(false, true, None).internal_name, "Startup");
    let bytes = b"not the stock sound".to_vec();
    assert_eq!(SchemeMeta::event_to_play_on_load(false, true, Some(&bytes)).internal_name, "Startup");
}

#[test]
fn parse_ini_basic() {
    let ini = "[Main]\nPatchStartupSound=true # comment\n; comment line\nFoo=bar\n";
    let secs = parse_ini(ini);
    assert_eq!(secs[0].0, "main");
    assert!(secs[0].1.iter().any(|(k, v)| k == "patchstartupsound" && v == "true"));
}

#[test]
fn parse_ini_sections_and_default() {
    let secs = parse_ini("a = 1\n[Two]\n b =  x y \n[]\n");
    assert_eq!(secs.len(), 2);
    assert_eq!(secs[0].0, "default");
    assert_eq!(secs[0].1, vec![("a".to_string(), "1".to_string())]);
    assert_eq!(secs[1].0, "two");
    assert_eq!(secs[1].1, vec![("b".to_string(), "x y".to_string())]);
    let empty = parse_ini("");
    assert_eq!(empty.len(), 1);
    assert_eq!(empty[0].0, "default");
}

#[test]
fn ini_roundtrip() {
    let mut s = Settings::default();
    s.patch_startup_sound = true;
    s.language = "fra".into();
    let text = s.save();
    let s2 = Settings::load_from(&text);
    assert!(s2.patch_startup_sound);
    assert_eq!(s2.language, "fra");
}

#[test]
fn settings_defaults_and_text() {
    let s = Settings::default();
    assert!(!s.patch_startup_sound);
    assert!(s.missing_sound_use_default);
    assert_eq!(s.language, "eng");
    let text = s.save();
    assert!(text.starts_with("; SoundManager Configuration File\r\n"));
    assert!(text.contains("[Main]\r\nPatchStartupSound=false\r\nUseDefaultOnMissingSound=true\r\n"));
    assert!(text.ends_with("Language=eng\r\n"));
    assert_eq!(Settings::load(None).language, "eng");
    assert_eq!(Settings::load_or_default(Some("[main]\nlanguage=fra\n")).language, "fra");
}

#[test]
fn settings_disabled_events_keep_known_names() {
    let s = Settings::load_from("[Main]\nDisabledSoundEvents=Startup, Nope ,,Logon\nWin7Patch=TRUE\n");
    assert_eq!(s.disabled_sound_events, vec!["Startup".to_string(), "Logon".to_string()]);
    assert!(s.patch_startup_sound);
    assert!(s.is_event_disabled("Logon"));
    assert!(!s.is_event_disabled("Nope"));
}

#[test]
fn set_event_disabled_adds_once_and_removes_all() {
    let mut s = Settings::default();
    s.set_event_disabled("Startup", true);
    s.set_event_disabled("Startup", true);
    assert_eq!(s.disabled_sound_events, vec!["Startup".to_string()]);
    s.disabled_sound_events.push("Startup".to_string());
    s.set_event_disabled("Startup", false);
    assert!(s.disabled_sound_events.is_empty());
}

#[test]
fn settings_file_path() {
    assert_eq!(settings_file(Some("C:\\AppData")), "C:\\AppData\\SoundManager\\SoundManager.ini");
    assert_eq!(settings_file(None), ".\\SoundManager\\SoundManager.ini");
}

#[test]
fn translation_fallbacks() {
    assert_eq!(builtin("button_ok"), Some("OK"));
    assert_eq!(builtin("missing"), None);
    assert_eq!(get_in(None, "button_ok"), "OK");
    assert_eq!(get_in(None, "no_such_key"), "no_such_key");
    assert_eq!(get_in(Some("{\"button_ok\": \"D'accord\"}"), "button_ok"), "D'accord");
    assert_eq!(get_in(Some("not json"), "button_ok"), "OK");
    assert_eq!(get_in(Some("{\"a\": \"1\", \"a\": \"2\"}"), "a"), "2");
}

#[test]
fn load_locale_cases() {
    let l = load_locale("eng", LocaleFile::Missing).unwrap();
    assert_eq!(l.key, "eng");
    assert_eq!(l.entries.len(), 20);
    assert!(matches!(load_locale("fra", LocaleFile::Unreadable("denied".into())), Err(CoreError::Io(m)) if m == "denied"));
    match load_locale("fra", LocaleFile::Text("[1]".into())) {
        Err(CoreError::MissingTranslation(m)) => assert!(m.starts_with("fra: ")),
        _ => panic!("expected a parse error"),
    }
    let ok = load_locale("fra", LocaleFile::Text("{\"b\": \"2\", \"a\": \"1\"}".into())).unwrap();
    assert_eq!(ok.entries, vec![("a".to_string(), "1".to_string()), ("b".to_string(), "2".to_string())]);
}

#[test]
fn language_state() {
    let mut st = LanguageState::new();
    assert_eq!(st.current_language(), "eng");
    st.set_language("fra");
    assert_eq!(st.current_language(), "fra");
    assert_eq!(st.get(None, "button_cancel"), "Cancel");
}

#[test]
fn locale_paths() {
    let (a, b) = locale_candidates("C:\\App", "fra");
    assert_eq!(a, "C:\\App\\lang\\fra.json");
    assert_eq!(b, "C:\\App\\resources\\lang\\fra.json");
    assert_eq!(locale_path("C:\\App", "fra", false, true), b);
    assert_eq!(locale_path("C:\\App", "fra", true, true), a);
    assert_eq!(locale_path("C:\\App", "fra", false, false), a);
}

#[test]
fn event_types_are_unique() {
    for t in [EventType::Startup, EventType::Shutdown, EventType::Logon, EventType::Logoff, EventType::Select, EventType::LoadScheme] {
        let ev = event_by_type(t);
        assert_eq!(ev.event_type, Some(t));
        assert_eq!(all_events().iter().filter(|e| e.event_type == Some(t)).count(), 1);
    }
}

#[test]
fn stock_startup_digest_is_computed_not_compared_raw() {
    // the stock sound is recognised by the MD5 digest of its bytes: bytes that
    // merely equal the digest are not the stock sound
    let digest_bytes = vec![0x15u8, 0x5f, 0x2a, 0x0f, 0x88, 0x65, 0x70, 0x15, 0x74, 0x16, 0xea, 0x85, 0xf4, 0xb4, 0xc6, 0x13];
    assert_eq!(SchemeMeta::event_to_play_on_load(false, true, Some(&digest_bytes)).internal_name, "Startup");
}

#[test]
fn load_encodes_thumbnail_as_standard_base64() {
    let m = SchemeMeta::load(None, Some(b"Man".as_slice()));
    assert_eq!(m.thumbnail_base64, "TWFu");
    assert_eq!(SchemeMeta::load(None, Some(b"Ma".as_slice())).thumbnail_base64, "TWE=");
    assert_eq!(SchemeMeta::load(None, Some(b"M".as_slice())).thumbnail_base64, "TQ==");
    assert_eq!(SchemeMeta::load(None, Some([0xfbu8, 0xff].as_slice())).thumbnail_base64, "+/8=");
}

#[test]
fn parse_ini_names_and_keys_are_lower_case() {
    let s = parse_ini("Top=1\n[Main]\nPatchStartupSound = True\n[OTHER] # x\nMiXeD=v");
    for (name, entries) in &s {
        assert_eq!(name, &name.to_lowercase());
        for (k, _) in entries {
            assert_eq!(k, &k.to_lowercase());
        }
    }
    assert_eq!(s[1].0, "main");
    assert_eq!(s[1].1[0].0, "patchstartupsound");
    assert_eq!(s[2].0, "other");
}
