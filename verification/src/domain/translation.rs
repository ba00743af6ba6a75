//! Translations: the locale files of the user interface, with a built-in
//! English table as fallback.

use vstd::prelude::*;
use vstd::string::StringExecFns;
use crate::errors::{CoreError, CoreResult};
use crate::text::str_eq;

verus! {

pub type SpecTable = Seq<(Seq<char>, Seq<char>)>;

/// The built-in English strings (keys of the upstream language files).
pub open spec fn builtin_table() -> SpecTable {
    seq![
        ("app_name"@, "Sound Manager"@),
        ("app_desc"@, "Manage and share Windows sound schemes !"@),
        ("default_scheme_name"@, "Custom scheme"@),
        ("default_scheme_author"@, "Unknown author"@),
        ("default_scheme_about"@, "No description"@),
        ("playing_shutdown_sound"@, "Playing shutdown sound"@),
        ("playing_logoff_sound"@, "Playing logoff sound"@),
        ("scheme_file_desc"@, "Sound Scheme File"@),
        ("scheme_file_proprietary_desc"@, "Proprietary sound scheme file"@),
        ("button_open"@, "Open"@),
        ("button_import"@, "Import"@),
        ("button_export"@, "Export"@),
        ("button_reset"@, "Reset"@),
        ("button_exit"@, "Exit"@),
        ("button_ok"@, "OK"@),
        ("button_cancel"@, "Cancel"@),
        ("sound_file_too_long"@, "The sound file is too long. The maximum duration is 30 seconds."@),
        ("startup_patch_not_admin"@, "Administrator privileges are required to patch the startup sound."@),
        ("startup_patch_no_imageres_dll"@, "imageres.dll was not found in the system directory."@),
        ("startup_patch_not_possible"@, "Startup sound patching is not possible on this Windows version."@),
    ]
}

/// The value of the first entry with key `key`.
pub open spec fn lookup_first(t: SpecTable, key: Seq<char>) -> Option<Seq<char>>
    decreases t.len(),
{
    if t.len() == 0 {
        None
    } else if t[0].0 == key {
        Some(t[0].1)
    } else {
        lookup_first(t.drop_first(), key)
    }
}

/// The value of the last entry with key `key` (a later duplicate wins, as
/// when a JSON object is read into a map).
pub open spec fn lookup_last(t: SpecTable, key: Seq<char>) -> Option<Seq<char>>
    decreases t.len(),
{
    if t.len() == 0 {
        None
    } else if t.last().0 == key {
        Some(t.last().1)
    } else {
        lookup_last(t.drop_last(), key)
    }
}

pub open spec fn pairs_view(v: Seq<(&'static str, &'static str)>) -> SpecTable {
    v.map_values(|p: (&'static str, &'static str)| (p.0@, p.1@))
}

pub open spec fn entries_view(v: Seq<(String, String)>) -> SpecTable {
    v.map_values(|p: (String, String)| (p.0@, p.1@))
}

fn builtin_pairs() -> (r: Vec<(&'static str, &'static str)>)
    ensures
        pairs_view(r@) == builtin_table(),
{
    let mut t: Vec<(&'static str, &'static str)> = Vec::new();
    t.push(("app_name", "Sound Manager"));
    t.push(("app_desc", "Manage and share Windows sound schemes !"));
    t.push(("default_scheme_name", "Custom scheme"));
    t.push(("default_scheme_author", "Unknown author"));
    t.push(("default_scheme_about", "No description"));
    t.push(("playing_shutdown_sound", "Playing shutdown sound"));
    t.push(("playing_logoff_sound", "Playing logoff sound"));
    t.push(("scheme_file_desc", "Sound Scheme File"));
    t.push(("scheme_file_proprietary_desc", "Proprietary sound scheme file"));
    t.push(("button_open", "Open"));
    t.push(("button_import", "Import"));
    t.push(("button_export", "Export"));
    t.push(("button_reset", "Reset"));
    t.push(("button_exit", "Exit"));
    t.push(("button_ok", "OK"));
    t.push(("button_cancel", "Cancel"));
    t.push(("sound_file_too_long", "The sound file is too long. The maximum duration is 30 seconds."));
    t.push(("startup_patch_not_admin", "Administrator privileges are required to patch the startup sound."));
    t.push(("startup_patch_no_imageres_dll", "imageres.dll was not found in the system directory."));
    t.push(("startup_patch_not_possible", "Startup sound patching is not possible on this Windows version."));
    assert(pairs_view(t@) =~= builtin_table());
    t
}

/// The built-in English string for `key`, if any.
pub fn builtin(key: &str) -> (r: Option<&'static str>)
    ensures
        match r {
            Some(v) => lookup_first(builtin_table(), key@) == Some(v@),
            None => lookup_first(builtin_table(), key@) is None,
        },
{
    let t = builtin_pairs();
    let mut i: usize = 0;
    assert(builtin_table().skip(0) =~= builtin_table());
    while i < t.len()
        invariant
            pairs_view(t@) == builtin_table(),
            i <= t.len(),
            lookup_first(builtin_table(), key@) == lookup_first(builtin_table().skip(i as int), key@),
        decreases t.len() - i,
    {
        let ghost rest = builtin_table().skip(i as int);
        assert(rest[0] == (t@[i as int].0@, t@[i as int].1@));
        assert(rest.drop_first() =~= builtin_table().skip(i + 1));
        if str_eq(t[i].0, key) {
            return Some(t[i].1);
        }
        i = i + 1;
    }
    None
}

/// The string shown for `key`: the value from the current language's file when
/// it holds the key, else the built-in English string, else the key itself.
pub open spec fn spec_get_in(file: Option<SpecTable>, key: Seq<char>) -> Seq<char> {
    match file {
        Some(t) if lookup_last(t, key) is Some => lookup_last(t, key)->0,
        _ => match lookup_first(builtin_table(), key) {
            Some(v) => v,
            None => key,
        },
    }
}

fn lookup_last_exec(t: &Vec<(String, String)>, key: &str) -> (r: Option<String>)
    ensures
        match r {
            Some(v) => lookup_last(entries_view(t@), key@) == Some(v@),
            None => lookup_last(entries_view(t@), key@) is None,
        },
{
    let mut i = t.len();
    assert(entries_view(t@).take(i as int) =~= entries_view(t@));
    while i > 0
        invariant
            i <= t.len(),
            lookup_last(entries_view(t@), key@) == lookup_last(entries_view(t@).take(i as int), key@),
        decreases i,
    {
        let ghost pre = entries_view(t@).take(i as int);
        assert(pre.last() == (t@[i - 1].0@, t@[i - 1].1@));
        assert(pre.drop_last() =~= entries_view(t@).take(i - 1));
        if str_eq(t[i - 1].0.as_str(), key) {
            return Some(t[i - 1].1.clone());
        }
        i = i - 1;
    }
    None
}

/// Translates `key` given the entries of the language file that could be read
/// and parsed (`None` otherwise): see `spec_get_in`.
pub fn translate(file_entries: Option<&Vec<(String, String)>>, key: &str) -> (r: String)
    ensures
        r@ == spec_get_in(
            match file_entries {
                Some(t) => Some(entries_view(t@)),
                None => None,
            },
            key@,
        ),
{
    match file_entries {
        Some(t) => match lookup_last_exec(t, key) {
            Some(v) => return v,
            None => {},
        },
        None => {},
    }
    match builtin(key) {
        Some(v) => v.to_owned(),
        None => key.to_owned(),
    }
}

/// What `serde_json::from_str` gives for `text` read as a JSON object of
/// strings: its entries in key order (a repeated key keeps its last value),
/// or the message of the parse error.
pub uninterp spec fn json_string_map(text: Seq<char>) -> Result<SpecTable, Seq<char>>;

/// Calls `serde_json::from_str::<BTreeMap<String, String>>` and lists the
/// map's entries in key order; an error is given as its message. The result
/// is named `json_string_map(text)`.
#[verifier::external_body]
fn parse_json_strings(text: &str) -> (r: Result<Vec<(String, String)>, String>)
    ensures
        match r {
            Ok(t) => json_string_map(text@) == Ok::<SpecTable, Seq<char>>(entries_view(t@)),
            Err(m) => json_string_map(text@) == Err::<SpecTable, Seq<char>>(m@),
        },
{
    match serde_json::from_str::<std::collections::BTreeMap<String, String>>(text) {
        Ok(m) => Ok(m.into_iter().collect()),
        Err(e) => Err(e.to_string()),
    }
}

/// The entries of a language file's text, when it parses.
pub open spec fn file_table(text: Option<Seq<char>>) -> Option<SpecTable> {
    match text {
        Some(t) => match json_string_map(t) {
            Ok(e) => Some(e),
            Err(_) => None,
        },
        None => None,
    }
}

pub open spec fn opt_str_view(o: Option<&str>) -> Option<Seq<char>> {
    match o {
        Some(s) => Some(s@),
        None => None,
    }
}

pub open spec fn opt_table_view(o: Option<Vec<(String, String)>>) -> Option<SpecTable> {
    match o {
        Some(t) => Some(entries_view(t@)),
        None => None,
    }
}

/// The entries of a language file's text when it could be read and parses.
pub fn file_entries(file_text: Option<&str>) -> (r: Option<Vec<(String, String)>>)
    ensures
        opt_table_view(r) == file_table(opt_str_view(file_text)),
{
    match file_text {
        Some(t) => match parse_json_strings(t) {
            Ok(entries) => Some(entries),
            Err(_) => None,
        },
        None => None,
    }
}

/// Translates `key` given the text of the language file when it could be
/// read: its value there when the file parses and holds the key, else the
/// built-in English string, else the key itself.
pub fn get_in(file_text: Option<&str>, key: &str) -> (r: String)
    ensures
        r@ == spec_get_in(file_table(opt_str_view(file_text)), key@),
{
    match file_text {
        Some(t) => match parse_json_strings(t) {
            Ok(entries) => translate(Some(&entries), key),
            Err(_) => translate(None, key),
        },
        None => translate(None, key),
    }
}

/// A language's strings for the user interface.
#[derive(Debug, Clone)]
pub struct Locale {
    pub key: String,
    pub entries: Vec<(String, String)>,
}

/// What reading a language file gave.
pub enum LocaleFile {
    /// No file for the language.
    Missing,
    /// The file exists but could not be read; the message of the I/O error.
    Unreadable(String),
    /// The file's text.
    Text(String),
}

/// A full locale for the frontend from a parsed language file: its entries,
/// or, when the file is not a JSON object of strings, the
/// `MissingTranslation` error `<lang>: <parser message>`.
pub fn locale_from_parsed(lang: &str, parsed: Result<Vec<(String, String)>, String>) -> (r: CoreResult<Locale>)
    ensures
        match parsed {
            Ok(t) => r matches Ok(l) && l.key@ == lang@ && entries_view(l.entries@) == entries_view(t@),
            Err(e) => r matches Err(CoreError::MissingTranslation(m)) && m@ == lang@ + ": "@ + e@,
        },
{
    match parsed {
        Ok(t) => Ok(Locale { key: lang.to_owned(), entries: t }),
        Err(e) => {
            let mut m = lang.to_owned();
            m.append(": ");
            m.append(e.as_str());
            Err(CoreError::MissingTranslation(m))
        },
    }
}

fn builtin_locale(lang: &str) -> (r: Locale)
    ensures
        r.key@ == lang@,
        entries_view(r.entries@) == builtin_table(),
{
    let t = builtin_pairs();
    let mut entries: Vec<(String, String)> = Vec::new();
    let mut i: usize = 0;
    while i < t.len()
        invariant
            pairs_view(t@) == builtin_table(),
            i <= t.len(),
            entries_view(entries@) == builtin_table().take(i as int),
        decreases t.len() - i,
    {
        assert(pairs_view(t@)[i as int] == (t@[i as int].0@, t@[i as int].1@));
        let k = t[i].0.to_owned();
        let v = t[i].1.to_owned();
        let ghost prev = entries_view(entries@);
        entries.push((k, v));
        assert(entries_view(entries@) =~= prev.push((k@, v@)));
        assert(builtin_table().take(i + 1) =~= builtin_table().take(i as int).push(builtin_table()[i as int]));
        assert(entries_view(entries@) =~= builtin_table().take(i + 1));
        i = i + 1;
    }
    assert(builtin_table().take(t.len() as int) =~= builtin_table());
    Locale { key: lang.to_owned(), entries }
}

/// A full locale for the frontend: the file's entries, or the built-in table
/// when the language has no file. An unreadable file is an `Io` error, an
/// invalid one a `MissingTranslation` error `<lang>: <parser message>`.
pub fn load_locale(lang: &str, file: LocaleFile) -> (r: CoreResult<Locale>)
    ensures
        match file {
            LocaleFile::Missing => r matches Ok(l) && l.key@ == lang@ && entries_view(l.entries@) == builtin_table(),
            LocaleFile::Unreadable(e) => r matches Err(CoreError::Io(m)) && m@ == e@,
            LocaleFile::Text(t) => match json_string_map(t@) {
                Ok(e) => r matches Ok(l) && l.key@ == lang@ && entries_view(l.entries@) == e,
                Err(e) => r matches Err(CoreError::MissingTranslation(m)) && m@ == lang@ + ": "@ + e,
            },
        },
{
    match file {
        LocaleFile::Missing => Ok(builtin_locale(lang)),
        LocaleFile::Unreadable(e) => Err(CoreError::Io(e)),
        LocaleFile::Text(t) => locale_from_parsed(lang, parse_json_strings(t.as_str())),
    }
}

/// The language of the user interface.
pub struct LanguageState {
    current: String,
}

impl View for LanguageState {
    type V = Seq<char>;

    closed spec fn view(&self) -> Seq<char> {
        self.current@
    }
}

impl LanguageState {
    /// Starts in English (`eng`).
    pub fn new() -> (r: Self)
        ensures
            r@ == "eng"@,
    {
        LanguageState { current: "eng".to_owned() }
    }

    pub fn set_language(&mut self, key: &str)
        ensures
            final(self)@ == key@,
    {
        self.current = key.to_owned();
    }

    pub fn current_language(&self) -> (r: String)
        ensures
            r@ == self@,
    {
        self.current.clone()
    }

    /// Translates `key` in the current language, given the text of that
    /// language's file when it could be read (see `get_in`).
    pub fn get(&self, file_text: Option<&str>, key: &str) -> (r: String)
        ensures
            r@ == spec_get_in(file_table(opt_str_view(file_text)), key@),
    {
        get_in(file_text, key)
    }
}

/// The language file of `lang` under `base`: `<base>\lang\<lang>.json`.
pub open spec fn locale_candidate(base: Seq<char>, lang: Seq<char>) -> Seq<char> {
    crate::paths::join_path(crate::paths::join_path(base, "lang"@), lang + ".json"@)
}

/// Where a language file is looked for, in order: next to the program, then
/// in its `resources` folder.
pub fn locale_candidates(exe_dir: &str, lang: &str) -> (r: (String, String))
    ensures
        r.0@ == locale_candidate(exe_dir@, lang@),
        r.1@ == locale_candidate(crate::paths::join_path(exe_dir@, "resources"@), lang@),
{
    let mut file = lang.to_owned();
    file.append(".json");
    let a = crate::paths::join_path_exec(exe_dir, "lang");
    let first = crate::paths::join_path_exec(a.as_str(), file.as_str());
    let res = crate::paths::join_path_exec(exe_dir, "resources");
    let b = crate::paths::join_path_exec(res.as_str(), "lang");
    let second = crate::paths::join_path_exec(b.as_str(), file.as_str());
    (first, second)
}

/// The language file used: the first candidate that exists, else the first
/// one (see `locale_candidates`).
pub fn locale_path(exe_dir: &str, lang: &str, first_exists: bool, second_exists: bool) -> (r: String)
    ensures
        r@ == if !first_exists && second_exists {
            locale_candidate(crate::paths::join_path(exe_dir@, "resources"@), lang@)
        } else {
            locale_candidate(exe_dir@, lang@)
        },
{
    let (first, second) = locale_candidates(exe_dir, lang);
    if !first_exists && second_exists {
        second
    } else {
        first
    }
}

} // verus!
