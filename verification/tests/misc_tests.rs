use sound_manager_core::catalog::{decimal_string, download_path, parse_myinstants, search_url};
use sound_manager_core::commands::{
    app_info, converted_archive_path, err_to_string, patch_on_update, patching_flags, scheme_dto, setup_plan, sound_event_dtos,
};
use sound_manager_core::domain::settings::Settings;
use sound_manager_core::domain::sound_event::EventType;
use sound_manager_core::downloader::{download_destination, filter_schemes, schemes_dir, RepoEntry, CONTENTS_URL};
use sound_manager_core::errors::CoreError;
use sound_manager_core::paths::{extension, join_path_exec, with_extension};
use sound_manager_core::platform::registry_scheme::SchemeInfo;
use sound_manager_core::platform::version::WindowsVersionInfo;
use sound_manager_core::session::{
    classify_message, console_end_sound, is_session_end_signal, launch_sound, on_event, MessageKind, PlayerState,
    SessionEvent, WM_DESTROY, WM_ENDSESSION, WM_QUERYENDSESSION,
};
use sound_manager_core::text::lowercase;

#[test]
fn parse_sample() {
    let html = r#"<button onclick="play('/media/sounds/hello.mp3', 'x', 'y')"></button><a href="/en/instant/hello/" class="instant-link">Hello</a>"#;
    let v = parse_myinstants(html);
    assert_eq!(v.len(), 1);
    assert_eq!(v[0].url, "https://www.myinstants.com/media/sounds/hello.mp3");
    assert_eq!(v[0].title, "Hello");
}

#[test]
fn parse_page_url_and_fallback_title() {
    let html = r#"<button onclick="play('/media/sounds/bye-bye.mp3')"></button><a href="/en/instant/bye/">x</a>"#;
    let v = parse_myinstants(html);
    assert_eq!(v.len(), 1);
    assert_eq!(v[0].title, "bye-bye");
    assert_eq!(v[0].page_url, "https://www.myinstants.com/en/instant/bye/");
    assert!(parse_myinstants("no sounds here").is_empty());
}

#[test]
fn parse_caps_results_at_thirty() {
    let one = "play('/media/sounds/a.mp3')";
    let html = one.repeat(40);
    assert_eq!(parse_myinstants(&html).len(), 30);
}

#[test]
fn search_and_download_paths() {
    assert_eq!(search_url("hello world!"), "https://www.myinstants.com/en/search/?name=hello%20world%21");
    assert_eq!(search_url("é-_.~"), "https://www.myinstants.com/en/search/?name=%C3%A9-_.~");
    assert_eq!(decimal_string(0), "0");
    assert_eq!(decimal_string(4021), "4021");
    assert_eq!(
        download_path("C:\\Temp", 77, "https://www.myinstants.com/media/sounds/boom.mp3"),
        "C:\\Temp\\sm-catalog-77-boom.mp3"
    );
}

#[test]
fn downloader_filter() {
    let e = |name: &str, url: Option<&str>, kind: &str| RepoEntry {
        name: name.to_string(),
        download_url: url.map(|u| u.to_string()),
        size: 10,
        kind: kind.to_string(),
    };
    let items = vec![
        e("Retro.ths", Some("u1"), "file"),
        e("folder", None, "dir"),
        e("Modern.ths", Some("u2"), "file"),
        e("NoUrl.ths", None, "file"),
    ];
    let all = filter_schemes(&items, None);
    assert_eq!(all.iter().map(|g| g.name.as_str()).collect::<Vec<_>>(), vec!["Retro.ths", "Modern.ths"]);
    let r = filter_schemes(&items, Some("RETRO"));
    assert_eq!(r.len(), 1);
    assert_eq!(r[0].download_url, "u1");
    assert_eq!(r[0].size, 10);
    assert_eq!(filter_schemes(&items, Some("")).len(), 2);
    assert!(filter_schemes(&items, Some("zzz")).is_empty());
    assert!(CONTENTS_URL.ends_with("Sound-Manager-Schemes/contents"));
    assert_eq!(schemes_dir(Some("C:\\A")), "C:\\A\\SoundManager\\Schemes");
    assert_eq!(download_destination(None, "x.ths"), ".\\SoundManager\\Schemes\\x.ths");
}

#[test]
fn path_helpers() {
    assert_eq!(join_path_exec("C:\\a", "b"), "C:\\a\\b");
    assert_eq!(join_path_exec("C:\\a/", "b"), "C:\\a/b");
    assert_eq!(join_path_exec("", "b"), "b");
    assert_eq!(extension("a\\b.tar.gz"), Some("gz".to_string()));
    assert_eq!(extension("a\\.hidden"), None);
    assert_eq!(extension("a\\b."), Some("".to_string()));
    assert_eq!(extension("a\\b.txt\\.."), None);
    assert_eq!(with_extension("C:\\x\\pack.soundpack", "ths"), "C:\\x\\pack.ths");
    assert_eq!(with_extension("C:\\x\\pack", "ths"), "C:\\x\\pack.ths");
    assert_eq!(with_extension("a/b.c/", "d"), "a/b.d");
    assert_eq!(with_extension("..", "d"), "..");
    assert_eq!(lowercase("MiXeD"), "mixed");
}

#[test]
fn session_messages() {
    assert_eq!(classify_message(WM_QUERYENDSESSION), MessageKind::QueryEndSession);
    assert_eq!(classify_message(WM_ENDSESSION), MessageKind::EndSession);
    assert_eq!(classify_message(WM_DESTROY), MessageKind::Destroy);
    assert_eq!(classify_message(0x0001), MessageKind::Other);
    let mut st = PlayerState::new();
    let q = on_event(&mut st, SessionEvent::QueryEndSession { prefer_startup: false, wparam: 0 });
    assert_eq!(q.result, 1);
    assert!(q.block_shutdown);
    let e = on_event(&mut st, SessionEvent::EndSession { wparam: 1 });
    assert_eq!(e.play, Some(EventType::Logoff));
    assert!(e.unblock_shutdown && e.quit);
    on_event(&mut st, SessionEvent::QueryEndSession { prefer_startup: true, wparam: 0 });
    let other = on_event(&mut st, SessionEvent::Other);
    assert!(other.default_proc && !other.quit);
    let e2 = on_event(&mut st, SessionEvent::EndSession { wparam: 1 });
    assert_eq!(e2.play, Some(EventType::Shutdown));
    let cancelled = on_event(&mut st, SessionEvent::EndSession { wparam: 0 });
    assert_eq!(cancelled.play, None);
    assert!(cancelled.quit);
    let d = on_event(&mut st, SessionEvent::Destroy);
    assert!(d.quit && d.play.is_none());
    let mut st2 = PlayerState::new();
    on_event(&mut st2, SessionEvent::QueryEndSession { prefer_startup: false, wparam: 1 });
    assert!(st2.play_shutdown);
}

#[test]
fn session_launch_and_console() {
    assert_eq!(launch_sound(true, true, true), Some(EventType::Startup));
    assert_eq!(launch_sound(true, false, true), Some(EventType::Logon));
    assert_eq!(launch_sound(false, true, true), Some(EventType::Logon));
    assert_eq!(launch_sound(false, true, false), None);
    assert_eq!(console_end_sound(true), EventType::Shutdown);
    assert_eq!(console_end_sound(false), EventType::Logoff);
    assert!(is_session_end_signal(5) && is_session_end_signal(6) && !is_session_end_signal(0));
}

#[test]
fn error_strings() {
    assert_eq!(err_to_string(&CoreError::Zip("bad".into())), "Zip: zip error: bad");
    assert_eq!(err_to_string(&CoreError::SoundTooLong), "SoundTooLong: sound file too long (max 30s)");
    assert_eq!(err_to_string(&CoreError::Other("x".into())), "Other: x");
    assert_eq!(CoreError::MissingTranslation("k".into()).kind(), "MissingTranslation");
    assert_eq!(CoreError::Io("disk".into()).message(), "io error: disk");
}

#[test]
fn command_data() {
    let v = WindowsVersionInfo { major: 6, minor: 1, build: 7601, friendly_name: "Windows 7".into() };
    let info = app_info("4.0.0", "eng", &v, true, "C:\\M");
    assert_eq!((info.version, info.language.as_str(), info.windows_friendly.as_str()), ("4.0.0", "eng", "Windows 7"));
    let flags = patching_flags(&v, false);
    assert!(flags.possible && flags.required && !flags.not_recommended && !flags.is_admin);
    let mut s = Settings::default();
    s.patch_startup_sound = true;
    assert!(patch_on_update(Some(EventType::Startup), &s, &v, true));
    assert!(!patch_on_update(Some(EventType::Logon), &s, &v, true));
    assert!(!patch_on_update(Some(EventType::Startup), &s, &v, false));
    assert_eq!(converted_archive_path("C:\\d\\x.soundpack", true, "C:\\Tmp"), "C:\\d\\x.ths");
    assert_eq!(converted_archive_path("C:\\d\\x.soundpack", false, "C:\\Tmp"), "C:\\Tmp\\soundmanager-converted.ths");
    let dto = scheme_dto(&SchemeInfo { internal_name: "a".into(), display_name: "A".into() });
    assert_eq!((dto.internal_name.as_str(), dto.display_name.as_str()), ("a", "A"));
}

#[test]
fn event_dtos() {
    let mut s = Settings::default();
    s.disabled_sound_events.push("Logon".into());
    let mut has = vec![false; 32];
    has[0] = true;
    let lang = "{\"event_startup_name\": \"Démarrage\"}";
    let d = sound_event_dtos(&s, Some(lang), &has);
    assert_eq!(d.len(), 32);
    assert_eq!(d[0].internal_name, "Startup");
    assert_eq!(d[0].display_name, "Démarrage");
    assert_eq!(d[0].description, "event_startup_desc");
    assert_eq!(d[0].file_name.as_deref(), Some("Startup.wav"));
    assert!(d[2].disabled && !d[2].has_file && d[2].file_name.is_none());
    assert_eq!(d[2].display_name, "event_logon_name");
}

#[test]
fn setup_plan_cases() {
    let mine = SchemeInfo { internal_name: "Mine".into(), display_name: "My scheme".into() };
    let def = SchemeInfo { internal_name: ".Default".into(), display_name: "Windows".into() };
    let p = setup_plan(true, Some(&mine), true);
    assert!(p.reset_meta && p.copy_sounds);
    assert_eq!(p.rename_meta_to.as_deref(), Some("My scheme"));
    assert_eq!(p.copy_source.as_deref(), Some("Mine"));
    let q = setup_plan(true, Some(&def), true);
    assert!(q.rename_meta_to.is_none());
    let r = setup_plan(false, None, false);
    assert!(!r.reset_meta && r.copy_sounds && r.copy_source.is_none());
    let t = setup_plan(false, Some(&mine), true);
    assert!(!t.copy_sounds && t.rename_meta_to.is_none());
}

#[test]
fn with_extension_then_extension() {
    for p in ["C:\\x\\pack.soundpack", "pack", "a/.hidden", "a/b.c/", "x.y.z\\"] {
        assert_eq!(extension(&with_extension(p, "ths")), Some("ths".to_string()), "{p}");
    }
    assert!(!sound_manager_core::archive::soundpack::is_proprietary(&converted_archive_path("d\\x.soundpack", true, "t")));
}
