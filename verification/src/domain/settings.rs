//! Application settings stored in `%APPDATA%\SoundManager\SoundManager.ini`,
//! with the minimal INI reader they are read with.

use vstd::prelude::*;
use vstd::string::StringExecFns;
use crate::domain::sound_event::event_names;
use crate::text::{
    chars_of, string_of, trim, trim_bounds, find_char, find_char_in, lines, line_ranges,
    spec_lowercase, lowercase, str_eq, lemma_find_char, split_ranges,
    lemma_ascii_subrange, lemma_ascii_trim, lemma_ascii_lines, lemma_ascii_lowercase_fixed,
};

verus! {

broadcast use vstd::string::group_string_axioms;

// ------------------------------------------------------------------ INI model

pub type SpecEntries = Seq<(Seq<char>, Seq<char>)>;

pub type SpecSections = Seq<(Seq<char>, SpecEntries)>;

/// State of the INI reader between two lines.
pub struct IniState {
    pub sections: SpecSections,
    pub cur_name: Seq<char>,
    pub cur_entries: SpecEntries,
}

/// The part of a line before its first `#`.
pub open spec fn before_hash(raw: Seq<char>) -> Seq<char> {
    match find_char(raw, '#') {
        Some(i) => raw.take(i),
        None => raw,
    }
}

pub open spec fn ini_init() -> IniState {
    IniState { sections: seq![], cur_name: "default"@, cur_entries: seq![] }
}

/// What the reader does with one raw line.
pub open spec fn ini_step(st: IniState, raw: Seq<char>) -> IniState {
    let line = trim(before_hash(raw));
    if line.len() == 0 || line[0] == ';' {
        st
    } else if line[0] == '[' && line.last() == ']' && line.len() > 2 {
        IniState {
            sections: if st.cur_entries.len() > 0 || st.cur_name != "default"@ {
                st.sections.push((st.cur_name, st.cur_entries))
            } else {
                st.sections
            },
            cur_name: spec_lowercase(line.subrange(1, line.len() - 1)),
            cur_entries: seq![],
        }
    } else {
        match find_char(line, '=') {
            Some(eq) => IniState {
                sections: st.sections,
                cur_name: st.cur_name,
                cur_entries: st.cur_entries.push(
                    (spec_lowercase(trim(line.take(eq))), trim(line.skip(eq + 1))),
                ),
            },
            None => st,
        }
    }
}

pub open spec fn ini_finish(st: IniState) -> SpecSections {
    st.sections.push((st.cur_name, st.cur_entries))
}

/// The sections `parse_ini` reads from `text`: lower-cased section names with
/// their `key = value` entries (lower-cased keys), in file order. Entries before
/// the first header go to a section named `default`, which is left out when
/// empty and followed by a header.
pub open spec fn ini_step_fn() -> spec_fn(IniState, Seq<char>) -> IniState {
    |st: IniState, l: Seq<char>| ini_step(st, l)
}

pub open spec fn spec_parse_ini(text: Seq<char>) -> SpecSections {
    ini_finish(lines(text).fold_left(ini_init(), ini_step_fn()))
}

pub open spec fn entries_view(e: Seq<(String, String)>) -> SpecEntries {
    e.map_values(|p: (String, String)| (p.0@, p.1@))
}

pub open spec fn sections_view(s: Seq<(String, Vec<(String, String)>)>) -> SpecSections {
    s.map_values(|p: (String, Vec<(String, String)>)| (p.0@, entries_view(p.1@)))
}

/// Minimal INI parser: `[Section]` and `key=value` lines; `#` starts a comment
/// anywhere on a line, `;` a comment line.
pub fn parse_ini(text: &str) -> (r: Vec<(String, Vec<(String, String)>)>)
    ensures
        sections_view(r@) == spec_parse_ini(text@),
{
    let v = chars_of(text);
    let ranges = line_ranges(&v);
    let ghost ls = lines(v@);
    let ghost f = ini_step_fn();
    let mut sections: Vec<(String, Vec<(String, String)>)> = Vec::new();
    let mut cur_name = "default".to_owned();
    let mut cur_entries: Vec<(String, String)> = Vec::new();
    let mut k: usize = 0;
    assert(ls.take(0).fold_left(ini_init(), f) == ini_init());
    assert(sections_view(sections@) =~= Seq::<(Seq<char>, SpecEntries)>::empty());
    assert(entries_view(cur_entries@) =~= Seq::<(Seq<char>, Seq<char>)>::empty());
    while k < ranges.len()
        invariant
            v@ == text@,
            ls == lines(v@),
            ranges@.len() == ls.len(),
            forall|j: int|
                0 <= j < ranges@.len() ==> {
                    &&& (#[trigger] ranges@[j]).0 <= ranges@[j].1 <= v.len()
                    &&& v@.subrange(ranges@[j].0 as int, ranges@[j].1 as int) == ls[j]
                },
            k <= ranges.len(),
            f == ini_step_fn(),
            ls.take(k as int).fold_left(ini_init(), f) == (IniState {
                sections: sections_view(sections@),
                cur_name: cur_name@,
                cur_entries: entries_view(cur_entries@),
            }),
        decreases ranges.len() - k,
    {
        let ghost before = IniState {
            sections: sections_view(sections@),
            cur_name: cur_name@,
            cur_entries: entries_view(cur_entries@),
        };
        let lo = ranges[k].0;
        let hi = ranges[k].1;
        let ghost raw = v@.subrange(lo as int, hi as int);
        let end = match find_char_in(&v, lo, hi, '#') {
            Some(p) => p,
            None => hi,
        };
        assert(v@.subrange(lo as int, end as int) == before_hash(raw)) by {
            assert(raw.take(end - lo) =~= v@.subrange(lo as int, end as int));
            if end == hi {
                assert(raw =~= v@.subrange(lo as int, end as int));
            }
        }
        let (a, b) = trim_bounds(&v, lo, end);
        let ghost line = v@.subrange(a as int, b as int);
        assert(line == trim(before_hash(raw)));
        if a == b || v[a] == ';' {
            assert(ini_step(before, raw) == before);
        } else if v[a] == '[' && v[b - 1] == ']' && b - a > 2 {
            let inner = string_of(&v, a + 1, b - 1);
            assert(line.subrange(1, line.len() - 1) =~= v@.subrange(a + 1, b - 1));
            let name = lowercase(inner.as_str());
            if cur_entries.len() > 0 || !str_eq(cur_name.as_str(), "default") {
                let old_name = cur_name;
                let old_entries = cur_entries;
                sections.push((old_name, old_entries));
                assert(sections_view(sections@) =~= before.sections.push(
                    (before.cur_name, before.cur_entries),
                ));
            }
            cur_name = name;
            cur_entries = Vec::new();
            assert(entries_view(cur_entries@) =~= Seq::<(Seq<char>, Seq<char>)>::empty());
        } else {
            match find_char_in(&v, a, b, '=') {
                Some(eq) => {
                    let (ka, kb) = trim_bounds(&v, a, eq);
                    let key_raw = string_of(&v, ka, kb);
                    let key = lowercase(key_raw.as_str());
                    let (va, vb) = trim_bounds(&v, eq + 1, b);
                    let value = string_of(&v, va, vb);
                    assert(line.take(eq - a) =~= v@.subrange(a as int, eq as int));
                    assert(line.skip(eq - a + 1) =~= v@.subrange(eq + 1, b as int));
                    cur_entries.push((key, value));
                    assert(entries_view(cur_entries@) =~= before.cur_entries.push(
                        (spec_lowercase(trim(line.take(eq - a))), trim(line.skip(eq - a + 1))),
                    ));
                },
                None => {},
            }
        }
        assert(ls.take(k + 1).drop_last() =~= ls.take(k as int));
        k = k + 1;
    }
    assert(ls.take(ls.len() as int) =~= ls);
    sections.push((cur_name, cur_entries));
    assert(sections_view(sections@) =~= spec_parse_ini(text@));
    sections
}

} // verus!

verus! {

// ------------------------------------------------------------------ settings

/// The application settings.
#[derive(Debug, Clone)]
pub struct Settings {
    /// Patch imageres.dll to customize the startup sound (Vista+).
    pub patch_startup_sound: bool,
    /// Use the default system sound when a sound is missing after loading an archive.
    pub missing_sound_use_default: bool,
    /// Convert proprietary (.soundpack) files to .ths on import.
    pub convert_proprietary_files: bool,
    /// Prefer Startup/Shutdown over Logon/Logoff sounds.
    pub prefer_startup_sound_on_logon: bool,
    /// Internal names of disabled sound events (they will not play).
    pub disabled_sound_events: Vec<String>,
    /// Accessibility: render scheme items as a list.
    pub scheme_items_list_view: bool,
    /// UI language key: "eng" or "fra".
    pub language: String,
}

pub struct SpecSettings {
    pub patch_startup_sound: bool,
    pub missing_sound_use_default: bool,
    pub convert_proprietary_files: bool,
    pub prefer_startup_sound_on_logon: bool,
    pub disabled_sound_events: Seq<Seq<char>>,
    pub scheme_items_list_view: bool,
    pub language: Seq<char>,
}

pub open spec fn strings_view(v: Seq<String>) -> Seq<Seq<char>> {
    v.map_values(|s: String| s@)
}

impl View for Settings {
    type V = SpecSettings;

    open spec fn view(&self) -> SpecSettings {
        SpecSettings {
            patch_startup_sound: self.patch_startup_sound,
            missing_sound_use_default: self.missing_sound_use_default,
            convert_proprietary_files: self.convert_proprietary_files,
            prefer_startup_sound_on_logon: self.prefer_startup_sound_on_logon,
            disabled_sound_events: strings_view(self.disabled_sound_events@),
            scheme_items_list_view: self.scheme_items_list_view,
            language: self.language@,
        }
    }
}

pub open spec fn default_settings() -> SpecSettings {
    SpecSettings {
        patch_startup_sound: false,
        missing_sound_use_default: true,
        convert_proprietary_files: false,
        prefer_startup_sound_on_logon: false,
        disabled_sound_events: seq![],
        scheme_items_list_view: false,
        language: "eng"@,
    }
}

impl Default for Settings {
    fn default() -> (r: Self)
        ensures
            r@ == default_settings(),
    {
        let r = Settings {
            patch_startup_sound: false,
            missing_sound_use_default: true,
            convert_proprietary_files: false,
            prefer_startup_sound_on_logon: false,
            disabled_sound_events: Vec::new(),
            scheme_items_list_view: false,
            language: "eng".to_owned(),
        };
        assert(strings_view(r.disabled_sound_events@) =~= Seq::<Seq<char>>::empty());
        r
    }
}

pub open spec fn is_true(value: Seq<char>) -> bool {
    crate::text::eq_ignore_ascii_case(value, "true"@)
}

/// The pieces of a comma-separated list, trimmed, that name known events.
pub open spec fn keep_known_events(pieces: Seq<Seq<char>>) -> Seq<Seq<char>>
    decreases pieces.len(),
{
    if pieces.len() == 0 {
        seq![]
    } else {
        let rest = keep_known_events(pieces.drop_last());
        let x = trim(pieces.last());
        if x.len() > 0 && event_names().contains(x) {
            rest.push(x)
        } else {
            rest
        }
    }
}

pub open spec fn parse_disabled(value: Seq<char>) -> Seq<Seq<char>> {
    keep_known_events(crate::text::split(value, ','))
}

/// The effect of one `key = value` entry of the `[Main]` section.
pub open spec fn settings_entry(s: SpecSettings, e: (Seq<char>, Seq<char>)) -> SpecSettings {
    let (key, value) = e;
    if key == "win7patch"@ || key == "patchstartupsound"@ {
        SpecSettings { patch_startup_sound: is_true(value), ..s }
    } else if key == "usedefaultonmissingsound"@ {
        SpecSettings { missing_sound_use_default: is_true(value), ..s }
    } else if key == "convertproprietaryfiles"@ {
        SpecSettings { convert_proprietary_files: is_true(value), ..s }
    } else if key == "preferstartupsoundonlogon"@ {
        SpecSettings { prefer_startup_sound_on_logon: is_true(value), ..s }
    } else if key == "disabledsoundevents"@ {
        SpecSettings { disabled_sound_events: parse_disabled(value), ..s }
    } else if key == "schemeitemslistview"@ {
        SpecSettings { scheme_items_list_view: is_true(value), ..s }
    } else if key == "language"@ {
        SpecSettings { language: value, ..s }
    } else {
        s
    }
}

pub open spec fn settings_entry_fn() -> spec_fn(SpecSettings, (Seq<char>, Seq<char>)) -> SpecSettings {
    |s: SpecSettings, e: (Seq<char>, Seq<char>)| settings_entry(s, e)
}

pub open spec fn settings_section(s: SpecSettings, sec: (Seq<char>, SpecEntries)) -> SpecSettings {
    if sec.0 == "main"@ {
        sec.1.fold_left(s, settings_entry_fn())
    } else {
        s
    }
}

pub open spec fn settings_section_fn() -> spec_fn(SpecSettings, (Seq<char>, SpecEntries)) -> SpecSettings {
    |s: SpecSettings, sec: (Seq<char>, SpecEntries)| settings_section(s, sec)
}

/// Settings read from the sections of a settings file: the defaults, changed by
/// each known key of every `main` section in turn.
pub open spec fn settings_from_sections(secs: SpecSections) -> SpecSettings {
    secs.fold_left(default_settings(), settings_section_fn())
}

pub open spec fn spec_load_from_text(text: Seq<char>) -> SpecSettings {
    settings_from_sections(spec_parse_ini(text))
}

#[verifier::rlimit(40)]
fn parse_disabled_exec(value: &str) -> (r: Vec<String>)
    ensures
        strings_view(r@) == parse_disabled(value@),
{
    let v = chars_of(value);
    let n = v.len();
    let pieces = split_ranges(&v, 0, n, ',');
    assert(v@.subrange(0, n as int) =~= v@);
    let ghost ps = crate::text::split(v@, ',');
    let mut out: Vec<String> = Vec::new();
    let mut i: usize = 0;
    assert(ps.take(0) =~= Seq::<Seq<char>>::empty());
    assert(strings_view(out@) =~= Seq::<Seq<char>>::empty());
    while i < pieces.len()
        invariant
            v@ == value@,
            n == v.len(),
            ps == crate::text::split(v@, ','),
            pieces@.len() == ps.len(),
            forall|k: int|
                0 <= k < pieces@.len() ==> {
                    &&& 0 <= (#[trigger] pieces@[k]).0 <= pieces@[k].1 <= n
                    &&& v@.subrange(pieces@[k].0 as int, pieces@[k].1 as int) == ps[k]
                },
            i <= pieces.len(),
            strings_view(out@) == keep_known_events(ps.take(i as int)),
        decreases pieces.len() - i,
    {
        let (a, b) = trim_bounds(&v, pieces[i].0, pieces[i].1);
        let x = string_of(&v, a, b);
        assert(ps.take(i + 1).drop_last() =~= ps.take(i as int));
        assert(ps.take(i + 1).last() == ps[i as int]);
        let ok = a < b && crate::domain::sound_event::event_by_name(x.as_str()).is_some();
        assert(x@ == trim(ps[i as int]));
        assert(ok == (x@.len() > 0 && event_names().contains(x@)));
        let ghost prev = strings_view(out@);
        if ok {
            out.push(x);
            assert(strings_view(out@) =~= prev.push(x@));
        }
        assert(strings_view(out@) == keep_known_events(ps.take(i + 1)));
        i = i + 1;
    }
    assert(ps.take(ps.len() as int) =~= ps);
    out
}

impl Settings {
    /// Settings read from the text of a settings file (see `spec_load_from_text`).
    pub fn load_from(text: &str) -> (r: Settings)
        ensures
            r@ == spec_load_from_text(text@),
    {
        let secs = parse_ini(text);
        let mut s = Settings::default();
        let ghost sv = sections_view(secs@);
        let ghost fs = settings_section_fn();
        let ghost fe = settings_entry_fn();
        let mut i: usize = 0;
        assert(sv.take(0).fold_left(default_settings(), fs) == default_settings());
        while i < secs.len()
            invariant
                sv == sections_view(secs@),
                sv == spec_parse_ini(text@),
                fs == settings_section_fn(),
                fe == settings_entry_fn(),
                i <= secs.len(),
                s@ == sv.take(i as int).fold_left(default_settings(), fs),
            decreases secs.len() - i,
        {
            let ghost before = s@;
            assert(sv[i as int] == (secs@[i as int].0@, entries_view(secs@[i as int].1@)));
            if str_eq(secs[i].0.as_str(), "main") {
                let entries = &secs[i].1;
                let ghost ev = entries_view(entries@);
                let mut j: usize = 0;
                assert(ev.take(0).fold_left(before, fe) == before);
                while j < entries.len()
                    invariant
                        ev == entries_view(entries@),
                        fe == settings_entry_fn(),
                        j <= entries.len(),
                        s@ == ev.take(j as int).fold_left(before, fe),
                    decreases entries.len() - j,
                {
                    let key = entries[j].0.as_str();
                    let value = entries[j].1.as_str();
                    assert(ev[j as int] == (key@, value@));
                    let ghost prev = s@;
                    if str_eq(key, "win7patch") || str_eq(key, "patchstartupsound") {
                        s.patch_startup_sound = crate::text::eq_ignore_ascii_case_exec(value, "true");
                    } else if str_eq(key, "usedefaultonmissingsound") {
                        s.missing_sound_use_default = crate::text::eq_ignore_ascii_case_exec(value, "true");
                    } else if str_eq(key, "convertproprietaryfiles") {
                        s.convert_proprietary_files = crate::text::eq_ignore_ascii_case_exec(value, "true");
                    } else if str_eq(key, "preferstartupsoundonlogon") {
                        s.prefer_startup_sound_on_logon = crate::text::eq_ignore_ascii_case_exec(value, "true");
                    } else if str_eq(key, "disabledsoundevents") {
                        s.disabled_sound_events = parse_disabled_exec(value);
                    } else if str_eq(key, "schemeitemslistview") {
                        s.scheme_items_list_view = crate::text::eq_ignore_ascii_case_exec(value, "true");
                    } else if str_eq(key, "language") {
                        s.language = value.to_owned();
                    }
                    assert(s@ == settings_entry(prev, ev[j as int]));
                    assert(ev.take(j + 1).drop_last() =~= ev.take(j as int));
                    j = j + 1;
                }
                assert(ev.take(ev.len() as int) =~= ev);
            }
            assert(s@ == settings_section(before, sv[i as int]));
            assert(sv.take(i + 1).drop_last() =~= sv.take(i as int));
            i = i + 1;
        }
        assert(sv.take(sv.len() as int) =~= sv);
        s
    }
}

} // verus!

verus! {

/// `s` without any item equal to `x`, the rest in order.
pub open spec fn without(s: Seq<Seq<char>>, x: Seq<char>) -> Seq<Seq<char>>
    decreases s.len(),
{
    if s.len() == 0 {
        seq![]
    } else if s.last() == x {
        without(s.drop_last(), x)
    } else {
        without(s.drop_last(), x).push(s.last())
    }
}

/// The disabled list after disabling (append once) or enabling (remove all) `name`.
pub open spec fn spec_set_disabled(d: Seq<Seq<char>>, name: Seq<char>, disabled: bool) -> Seq<Seq<char>> {
    if disabled {
        if d.contains(name) {
            d
        } else {
            d.push(name)
        }
    } else {
        without(d, name)
    }
}

pub open spec fn bool_text(b: bool) -> Seq<char> {
    if b {
        "true"@
    } else {
        "false"@
    }
}

/// `xs` joined with `,` between consecutive items.
pub open spec fn join_comma(xs: Seq<Seq<char>>) -> Seq<char>
    decreases xs.len(),
{
    if xs.len() == 0 {
        seq![]
    } else if xs.len() == 1 {
        xs[0]
    } else {
        join_comma(xs.drop_last()) + seq![','] + xs.last()
    }
}

/// The lines of a settings file, without their line endings.
pub open spec fn settings_lines(s: SpecSettings) -> Seq<Seq<char>> {
    seq![
        "; SoundManager Configuration File"@,
        "; CDDL-1.0 - based on ORelio/Sound-Manager"@,
        seq![],
        "[Main]"@,
        "PatchStartupSound="@ + bool_text(s.patch_startup_sound),
        "UseDefaultOnMissingSound="@ + bool_text(s.missing_sound_use_default),
        "ConvertProprietaryFiles="@ + bool_text(s.convert_proprietary_files),
        "PreferStartupSoundOnLogon="@ + bool_text(s.prefer_startup_sound_on_logon),
        "DisabledSoundEvents="@ + join_comma(s.disabled_sound_events),
        "SchemeItemsListView="@ + bool_text(s.scheme_items_list_view),
        "Language="@ + s.language,
    ]
}



/// The content of a settings file written for `s`.
pub open spec fn spec_settings_text(s: SpecSettings) -> Seq<char> {
    join_crlf(settings_lines(s))
}

fn push_bool(out: &mut String, b: bool)
    ensures
        final(out)@ == old(out)@ + bool_text(b),
{
    if b {
        out.append("true");
    } else {
        out.append("false");
    }
}

fn push_line(out: &mut String, ls: Ghost<Seq<Seq<char>>>, line: &str)
    requires
        old(out)@ == join_crlf(ls@),
    ensures
        final(out)@ == join_crlf(ls@.push(line@)),
{
    out.append(line);
    out.append("\r\n");
    proof {
        reveal_strlit("\r\n");
        assert(ls@.push(line@).drop_last() =~= ls@);
        assert("\r\n"@ =~= seq!['\r', '\n']);
    }
}

impl Settings {
    /// The content written to the settings file (see `spec_settings_text`).
    pub fn save(&self) -> (r: String)
        ensures
            r@ == spec_settings_text(self@),
    {
        let ghost ls = settings_lines(self@);
        let mut out = String::new();
        assert(join_crlf(ls.take(0)) =~= out@);
        push_line(&mut out, Ghost(ls.take(0)), "; SoundManager Configuration File");
        assert(ls.take(0).push(ls[0]) =~= ls.take(1));
        push_line(&mut out, Ghost(ls.take(1)), "; CDDL-1.0 - based on ORelio/Sound-Manager");
        assert(ls.take(1).push(ls[1]) =~= ls.take(2));
        push_line(&mut out, Ghost(ls.take(2)), "");
        proof {
            reveal_strlit("");
        }
        assert(""@ =~= Seq::<char>::empty());
        assert(ls.take(2).push(""@) =~= ls.take(3));
        push_line(&mut out, Ghost(ls.take(3)), "[Main]");
        assert(ls.take(3).push(ls[3]) =~= ls.take(4));
        let mut line = "PatchStartupSound=".to_owned();
        push_bool(&mut line, self.patch_startup_sound);
        push_line(&mut out, Ghost(ls.take(4)), line.as_str());
        assert(ls.take(4).push(line@) =~= ls.take(5));
        let mut line = "UseDefaultOnMissingSound=".to_owned();
        push_bool(&mut line, self.missing_sound_use_default);
        push_line(&mut out, Ghost(ls.take(5)), line.as_str());
        assert(ls.take(5).push(line@) =~= ls.take(6));
        let mut line = "ConvertProprietaryFiles=".to_owned();
        push_bool(&mut line, self.convert_proprietary_files);
        push_line(&mut out, Ghost(ls.take(6)), line.as_str());
        assert(ls.take(6).push(line@) =~= ls.take(7));
        let mut line = "PreferStartupSoundOnLogon=".to_owned();
        push_bool(&mut line, self.prefer_startup_sound_on_logon);
        push_line(&mut out, Ghost(ls.take(7)), line.as_str());
        assert(ls.take(7).push(line@) =~= ls.take(8));
        let mut line = "DisabledSoundEvents=".to_owned();
        let ghost prefix = line@;
        let d = &self.disabled_sound_events;
        let mut i: usize = 0;
        let ghost dv = strings_view(d@);
        assert(dv.take(0) =~= Seq::<Seq<char>>::empty());
        while i < d.len()
            invariant
                dv == strings_view(d@),
                i <= d.len(),
                line@ == prefix + join_comma(dv.take(i as int)),
            decreases d.len() - i,
        {
            let ghost before = line@;
            if i > 0 {
                line.push(',');
            }
            line.append(d[i].as_str());
            assert(dv.take(i + 1).drop_last() =~= dv.take(i as int));
            assert(dv.take(i + 1).last() == d@[i as int]@);
            if i == 0 {
                assert(line@ =~= prefix + join_comma(dv.take(1)));
            } else {
                assert(line@ =~= prefix + join_comma(dv.take(i as int)) + seq![','] + d@[i as int]@);
            }
            i = i + 1;
        }
        assert(dv.take(d.len() as int) =~= dv);
        push_line(&mut out, Ghost(ls.take(8)), line.as_str());
        assert(ls.take(8).push(line@) =~= ls.take(9));
        let mut line = "SchemeItemsListView=".to_owned();
        push_bool(&mut line, self.scheme_items_list_view);
        push_line(&mut out, Ghost(ls.take(9)), line.as_str());
        assert(ls.take(9).push(line@) =~= ls.take(10));
        let mut line = "Language=".to_owned();
        line.append(self.language.as_str());
        push_line(&mut out, Ghost(ls.take(10)), line.as_str());
        assert(ls.take(10).push(line@) =~= ls);
        out
    }

    /// Settings from the content of the settings file, or the defaults when
    /// the file could not be read (`None`).
    pub fn load(file_text: Option<&str>) -> (r: Settings)
        ensures
            r@ == match file_text {
                Some(t) => spec_load_from_text(t@),
                None => default_settings(),
            },
    {
        match file_text {
            Some(t) => Settings::load_from(t),
            None => Settings::default(),
        }
    }

    /// Same as `load`: an unreadable file gives the defaults.
    pub fn load_or_default(file_text: Option<&str>) -> (r: Settings)
        ensures
            r@ == match file_text {
                Some(t) => spec_load_from_text(t@),
                None => default_settings(),
            },
    {
        Settings::load(file_text)
    }

    /// Whether `internal_name` is among the disabled events.
    pub fn is_event_disabled(&self, internal_name: &str) -> (r: bool)
        ensures
            r == self@.disabled_sound_events.contains(internal_name@),
    {
        let mut i: usize = 0;
        while i < self.disabled_sound_events.len()
            invariant
                i <= self.disabled_sound_events.len(),
                forall|j: int| 0 <= j < i ==> self@.disabled_sound_events[j] != internal_name@,
            decreases self.disabled_sound_events.len() - i,
        {
            assert(self@.disabled_sound_events[i as int] == self.disabled_sound_events@[i as int]@);
            if str_eq(self.disabled_sound_events[i].as_str(), internal_name) {
                return true;
            }
            i = i + 1;
        }
        false
    }

    /// Disables (appending the name once) or enables (removing every occurrence)
    /// an event. Saving the settings is left to the caller.
    pub fn set_event_disabled(&mut self, internal_name: &str, disabled: bool)
        ensures
            final(self)@ == (SpecSettings {
                disabled_sound_events: spec_set_disabled(
                    old(self)@.disabled_sound_events,
                    internal_name@,
                    disabled,
                ),
                ..old(self)@
            }),
    {
        if disabled {
            if !self.is_event_disabled(internal_name) {
                self.disabled_sound_events.push(internal_name.to_owned());
                assert(strings_view(self.disabled_sound_events@) =~= old(self)@.disabled_sound_events.push(internal_name@));
            }
        } else {
            let ghost src = old(self)@.disabled_sound_events;
            let mut kept: Vec<String> = Vec::new();
            let mut i: usize = 0;
            let n = self.disabled_sound_events.len();
            assert(without(src.take(0), internal_name@) =~= strings_view(kept@));
            while i < n
                invariant
                    n == self.disabled_sound_events.len(),
                    src == strings_view(self.disabled_sound_events@),
                    i <= n,
                    strings_view(kept@) == without(src.take(i as int), internal_name@),
                decreases n - i,
            {
                let x = self.disabled_sound_events[i].clone();
                assert(src.take(i + 1).drop_last() =~= src.take(i as int));
                assert(src[i as int] == x@);
                if !str_eq(x.as_str(), internal_name) {
                    kept.push(x);
                    assert(strings_view(kept@) =~= without(src.take(i as int), internal_name@).push(x@));
                }
                assert(strings_view(kept@) == without(src.take(i + 1), internal_name@));
                i = i + 1;
            }
            assert(src.take(n as int) =~= src);
            self.disabled_sound_events = kept;
        }
    }
}

} // verus!

verus! {

// ------------------------------------------------------------------ laws

use crate::domain::sound_event::{is_letter, all_letters, lemma_event_names_letters, event_table};
use crate::text::{trim_start, trim_end, is_ws, split, lemma_find_char_is, lemma_find_char_none, strip_cr, ascii_lowercase, is_ascii_seq, eq_ignore_ascii_case, lemma_trim_noop, no_newline, no_hash, join_crlf, lemma_lines_join_crlf, lemma_trim_start_len, lemma_trim_end_len, lemma_concat_no_newline};













proof fn lemma_letters_ascii_lower(key: Seq<char>)
    requires
        all_letters(key),
    ensures
        is_ascii_seq(key),
        spec_lowercase(key) == ascii_lowercase(key),
{
    assert forall|i: int| 0 <= i < key.len() implies (#[trigger] key[i] as u32) < 128 by {
        assert(is_letter(key[i]));
    }
}

/// A `key=value` line with a non-empty letters-only key adds the entry
/// `(lower-cased key, value)` to the current section.
proof fn lemma_entry_line(st: IniState, key: Seq<char>, value: Seq<char>)
    requires
        key.len() > 0,
        all_letters(key),
        no_hash(value),
        trim(value) == value,
    ensures
        ini_step(st, key + seq!['='] + value) == (IniState {
            cur_entries: st.cur_entries.push((ascii_lowercase(key), value)),
            ..st
        }),
{
    let line = key + seq!['='] + value;
    assert forall|j: int| 0 <= j < line.len() implies line[j] != '#' by {
        if j < key.len() {
            assert(line[j] == key[j]);
            assert(is_letter(key[j]));
        } else if j > key.len() {
            assert(line[j] == value[j - key.len() - 1]);
        }
    }
    lemma_find_char_none(line, '#');
    assert(before_hash(line) == line);
    assert(is_letter(key[0]));
    assert(line[0] == key[0]);
    if value.len() > 0 {
        lemma_trim_start_len(value);
        lemma_trim_end_len(trim_start(value));
        assert(trim_start(value) == value);
        lemma_trim_end_len(value);
        assert(!is_ws(value[0]));
        assert(!is_ws(value.last()));
        assert(line.last() == value.last());
    }
    lemma_trim_noop(line);
    assert forall|j: int| 0 <= j < key.len() implies line[j] != '=' by {
        assert(line[j] == key[j]);
        assert(is_letter(key[j]));
    }
    lemma_find_char_is(line, '=', key.len() as int);
    assert(line.take(key.len() as int) =~= key);
    assert(is_letter(key.last()));
    lemma_trim_noop(key);
    assert(line.skip(key.len() as int + 1) =~= value);
    lemma_letters_ascii_lower(key);
}





} // verus!

verus! {

proof fn lemma_fold_step<A, B>(s: Seq<A>, k: int, b: B, f: spec_fn(B, A) -> B)
    requires
        0 <= k < s.len(),
    ensures
        s.take(k + 1).fold_left(b, f) == f(s.take(k).fold_left(b, f), s[k]),
{
    assert(s.take(k + 1).drop_last() =~= s.take(k));
}

pub open spec fn letters_or_commas(s: Seq<char>) -> bool {
    forall|j: int| 0 <= j < s.len() ==> is_letter(#[trigger] s[j]) || s[j] == ','
}

pub open spec fn letter_items(xs: Seq<Seq<char>>) -> bool {
    forall|i: int| 0 <= i < xs.len() ==> (#[trigger] xs[i]).len() > 0 && all_letters(xs[i])
}

proof fn lemma_join_comma_chars(xs: Seq<Seq<char>>)
    requires
        letter_items(xs),
    ensures
        letters_or_commas(join_comma(xs)),
        xs.len() > 0 ==> join_comma(xs).len() > 0 && join_comma(xs)[0] == xs[0][0]
            && join_comma(xs).last() == xs.last().last(),
    decreases xs.len(),
{
    if xs.len() == 1 {
        assert(xs[0].len() > 0 && all_letters(xs[0]));
    } else if xs.len() > 1 {
        let ys = xs.drop_last();
        assert forall|i: int| 0 <= i < ys.len() implies (#[trigger] ys[i]).len() > 0 && all_letters(ys[i]) by {
            assert(ys[i] == xs[i]);
        }
        lemma_join_comma_chars(ys);
        let j = join_comma(xs);
        let l = xs.last();
        assert(l == xs[xs.len() - 1]);
        assert(l.len() > 0 && all_letters(l));
        assert(j == join_comma(ys) + seq![','] + l);
        assert forall|k: int| 0 <= k < j.len() implies is_letter(#[trigger] j[k]) || j[k] == ',' by {
            if k < join_comma(ys).len() {
                assert(j[k] == join_comma(ys)[k]);
            } else if k > join_comma(ys).len() {
                assert(j[k] == l[k - join_comma(ys).len() - 1]);
            }
        }
    }
}

proof fn lemma_split_concat(a: Seq<char>, b: Seq<char>, c: char)
    ensures
        split(a + seq![c] + b, c) == split(a, c) + split(b, c),
    decreases a.len(),
{
    let s = a + seq![c] + b;
    crate::text::lemma_find_char(a, c);
    match find_char(a, c) {
        None => {
            assert forall|j: int| 0 <= j < a.len() implies s[j] != c by {
                assert(s[j] == a[j]);
            }
            lemma_find_char_is(s, c, a.len() as int);
            assert(s.take(a.len() as int) =~= a);
            assert(s.skip(a.len() as int + 1) =~= b);
            assert(split(a, c) == seq![a]);
        },
        Some(i) => {
            assert forall|j: int| 0 <= j < i implies s[j] != c by {
                assert(s[j] == a[j]);
            }
            assert(s[i] == a[i]);
            lemma_find_char_is(s, c, i);
            assert(s.take(i) =~= a.take(i));
            assert(s.skip(i + 1) =~= a.skip(i + 1) + seq![c] + b);
            lemma_split_concat(a.skip(i + 1), b, c);
        },
    }
}

proof fn lemma_split_single(a: Seq<char>, c: char)
    requires
        forall|j: int| 0 <= j < a.len() ==> a[j] != c,
    ensures
        split(a, c) == seq![a],
{
    lemma_find_char_none(a, c);
}

proof fn lemma_split_join(xs: Seq<Seq<char>>)
    requires
        xs.len() > 0,
        letter_items(xs),
    ensures
        split(join_comma(xs), ',') == xs,
    decreases xs.len(),
{
    if xs.len() == 1 {
        assert(all_letters(xs[0]) && xs[0].len() > 0);
        assert forall|j: int| 0 <= j < xs[0].len() implies xs[0][j] != ',' by {
            assert(is_letter(xs[0][j]));
        }
        lemma_split_single(xs[0], ',');
        assert(seq![xs[0]] =~= xs);
    } else {
        let ys = xs.drop_last();
        assert forall|i: int| 0 <= i < ys.len() implies (#[trigger] ys[i]).len() > 0 && all_letters(ys[i]) by {
            assert(ys[i] == xs[i]);
        }
        lemma_split_join(ys);
        let l = xs.last();
        assert(l == xs[xs.len() - 1]);
        assert(all_letters(l));
        lemma_split_concat(join_comma(ys), l, ',');
        assert forall|j: int| 0 <= j < l.len() implies l[j] != ',' by {
            assert(is_letter(l[j]));
        }
        lemma_split_single(l, ',');
        assert(ys + seq![l] =~= xs);
    }
}

proof fn lemma_names_are_letters(x: Seq<char>)
    requires
        event_names().contains(x),
    ensures
        x.len() > 0,
        all_letters(x),
{
    lemma_event_names_letters();
    let j = choose|j: int| 0 <= j < event_names().len() && event_names()[j] == x;
    assert(event_table()[j].name == x);
}

proof fn lemma_keep_known_all(xs: Seq<Seq<char>>)
    requires
        forall|i: int| 0 <= i < xs.len() ==> event_names().contains(#[trigger] xs[i]),
    ensures
        keep_known_events(xs) == xs,
    decreases xs.len(),
{
    if xs.len() > 0 {
        let ys = xs.drop_last();
        assert forall|i: int| 0 <= i < ys.len() implies event_names().contains(#[trigger] ys[i]) by {
            assert(ys[i] == xs[i]);
        }
        lemma_keep_known_all(ys);
        let l = xs.last();
        assert(event_names().contains(xs[xs.len() - 1]));
        lemma_names_are_letters(l);
        assert(is_letter(l[0]));
        assert(is_letter(l.last()));
        lemma_trim_noop(l);
        assert(ys.push(l) =~= xs);
    }
}

/// The settings that survive a write and a read unchanged: a language on one
/// line, trimmed, without `#`, and only known event names as disabled events.
pub open spec fn settings_roundtrip_ok(s: SpecSettings) -> bool {
    &&& no_newline(s.language)
    &&& no_hash(s.language)
    &&& trim(s.language) == s.language
    &&& forall|i: int|
        0 <= i < s.disabled_sound_events.len() ==> event_names().contains(
            #[trigger] s.disabled_sound_events[i],
        )
}

pub open spec fn settings_entries(s: SpecSettings) -> SpecEntries {
    seq![
        ("patchstartupsound"@, bool_text(s.patch_startup_sound)),
        ("usedefaultonmissingsound"@, bool_text(s.missing_sound_use_default)),
        ("convertproprietaryfiles"@, bool_text(s.convert_proprietary_files)),
        ("preferstartupsoundonlogon"@, bool_text(s.prefer_startup_sound_on_logon)),
        ("disabledsoundevents"@, join_comma(s.disabled_sound_events)),
        ("schemeitemslistview"@, bool_text(s.scheme_items_list_view)),
        ("language"@, s.language),
    ]
}

proof fn lemma_bool_text(b: bool)
    ensures
        all_letters(bool_text(b)),
        bool_text(b).len() > 0,
        no_hash(bool_text(b)),
        no_newline(bool_text(b)),
        trim(bool_text(b)) == bool_text(b),
        is_true(bool_text(b)) == b,
{
    reveal_strlit("true");
    reveal_strlit("false");
    assert(is_letter(bool_text(b)[0]));
    assert(is_letter(bool_text(b).last()));
    lemma_trim_noop(bool_text(b));
}

} // verus!

verus! {

proof fn lemma_comment_line(st: IniState, raw: Seq<char>)
    requires
        raw.len() > 0,
        raw[0] == ';',
        no_hash(raw),
        !is_ws(raw.last()),
    ensures
        ini_step(st, raw) == st,
{
    lemma_find_char_none(raw, '#');
    lemma_trim_noop(raw);
}

proof fn lemma_header_line()
    ensures
        ini_step(ini_init(), "[Main]"@) == (IniState {
            sections: seq![],
            cur_name: "main"@,
            cur_entries: seq![],
        }),
{
    reveal_strlit("[Main]");
    reveal_strlit("main");
    reveal_strlit("Main");
    reveal_strlit("default");
    let raw = "[Main]"@;
    lemma_find_char_none(raw, '#');
    lemma_trim_noop(raw);
    assert(raw.subrange(1, raw.len() - 1) =~= "Main"@);
    lemma_letters_ascii_lower("Main"@);
    assert(ascii_lowercase("Main"@) =~= "main"@);
}



proof fn lemma_key_line(st: IniState, prefix: Seq<char>, key: Seq<char>, lower: Seq<char>, value: Seq<char>)
    requires
        prefix == key + seq!['='],
        key.len() > 0,
        all_letters(key),
        ascii_lowercase(key) == lower,
        no_hash(value),
        trim(value) == value,
    ensures
        ini_step(st, prefix + value) == (IniState {
            cur_entries: st.cur_entries.push((lower, value)),
            ..st
        }),
{
    assert(prefix + value =~= key + seq!['='] + value);
    lemma_entry_line(st, key, value);
}

proof fn lemma_entry_step(
    ls: Seq<Seq<char>>,
    es: SpecEntries,
    k: int,
    prefix: Seq<char>,
    key: Seq<char>,
    lower: Seq<char>,
    value: Seq<char>,
)
    requires
        0 <= k < 7,
        ls.len() == 11,
        es.len() == 7,
        ls[4 + k] == prefix + value,
        prefix == key + seq!['='],
        key.len() > 0,
        all_letters(key),
        ascii_lowercase(key) == lower,
        es[k] == (lower, value),
        no_hash(value),
        trim(value) == value,
        ls.take(4 + k).fold_left(ini_init(), ini_step_fn()) == (IniState {
            sections: seq![],
            cur_name: "main"@,
            cur_entries: es.take(k),
        }),
    ensures
        ls.take(5 + k).fold_left(ini_init(), ini_step_fn()) == (IniState {
            sections: seq![],
            cur_name: "main"@,
            cur_entries: es.take(k + 1),
        }),
{
    let st = IniState { sections: seq![], cur_name: "main"@, cur_entries: es.take(k) };
    lemma_fold_step(ls, 4 + k, ini_init(), ini_step_fn());
    lemma_key_line(st, prefix, key, lower, value);
    assert(es.take(k).push(es[k]) =~= es.take(k + 1));
}

proof fn lemma_key_patchstartupsound()
    ensures
        "PatchStartupSound="@ == "PatchStartupSound"@ + seq!['='],
        "PatchStartupSound"@.len() > 0,
        all_letters("PatchStartupSound"@),
        ascii_lowercase("PatchStartupSound"@) == "patchstartupsound"@,
{
    reveal_strlit("PatchStartupSound=");
    reveal_strlit("PatchStartupSound");
    reveal_strlit("patchstartupsound");
    assert("PatchStartupSound="@ =~= "PatchStartupSound"@ + seq!['=']);
    assert(ascii_lowercase("PatchStartupSound"@) =~= "patchstartupsound"@);
}
proof fn lemma_key_usedefaultonmissingsound()
    ensures
        "UseDefaultOnMissingSound="@ == "UseDefaultOnMissingSound"@ + seq!['='],
        "UseDefaultOnMissingSound"@.len() > 0,
        all_letters("UseDefaultOnMissingSound"@),
        ascii_lowercase("UseDefaultOnMissingSound"@) == "usedefaultonmissingsound"@,
{
    reveal_strlit("UseDefaultOnMissingSound=");
    reveal_strlit("UseDefaultOnMissingSound");
    reveal_strlit("usedefaultonmissingsound");
    assert("UseDefaultOnMissingSound="@ =~= "UseDefaultOnMissingSound"@ + seq!['=']);
    assert(ascii_lowercase("UseDefaultOnMissingSound"@) =~= "usedefaultonmissingsound"@);
}
proof fn lemma_key_convertproprietaryfiles()
    ensures
        "ConvertProprietaryFiles="@ == "ConvertProprietaryFiles"@ + seq!['='],
        "ConvertProprietaryFiles"@.len() > 0,
        all_letters("ConvertProprietaryFiles"@),
        ascii_lowercase("ConvertProprietaryFiles"@) == "convertproprietaryfiles"@,
{
    reveal_strlit("ConvertProprietaryFiles=");
    reveal_strlit("ConvertProprietaryFiles");
    reveal_strlit("convertproprietaryfiles");
    assert("ConvertProprietaryFiles="@ =~= "ConvertProprietaryFiles"@ + seq!['=']);
    assert(ascii_lowercase("ConvertProprietaryFiles"@) =~= "convertproprietaryfiles"@);
}
proof fn lemma_key_preferstartupsoundonlogon()
    ensures
        "PreferStartupSoundOnLogon="@ == "PreferStartupSoundOnLogon"@ + seq!['='],
        "PreferStartupSoundOnLogon"@.len() > 0,
        all_letters("PreferStartupSoundOnLogon"@),
        ascii_lowercase("PreferStartupSoundOnLogon"@) == "preferstartupsoundonlogon"@,
{
    reveal_strlit("PreferStartupSoundOnLogon=");
    reveal_strlit("PreferStartupSoundOnLogon");
    reveal_strlit("preferstartupsoundonlogon");
    assert("PreferStartupSoundOnLogon="@ =~= "PreferStartupSoundOnLogon"@ + seq!['=']);
    assert(ascii_lowercase("PreferStartupSoundOnLogon"@) =~= "preferstartupsoundonlogon"@);
}
proof fn lemma_key_disabledsoundevents()
    ensures
        "DisabledSoundEvents="@ == "DisabledSoundEvents"@ + seq!['='],
        "DisabledSoundEvents"@.len() > 0,
        all_letters("DisabledSoundEvents"@),
        ascii_lowercase("DisabledSoundEvents"@) == "disabledsoundevents"@,
{
    reveal_strlit("DisabledSoundEvents=");
    reveal_strlit("DisabledSoundEvents");
    reveal_strlit("disabledsoundevents");
    assert("DisabledSoundEvents="@ =~= "DisabledSoundEvents"@ + seq!['=']);
    assert(ascii_lowercase("DisabledSoundEvents"@) =~= "disabledsoundevents"@);
}
proof fn lemma_key_schemeitemslistview()
    ensures
        "SchemeItemsListView="@ == "SchemeItemsListView"@ + seq!['='],
        "SchemeItemsListView"@.len() > 0,
        all_letters("SchemeItemsListView"@),
        ascii_lowercase("SchemeItemsListView"@) == "schemeitemslistview"@,
{
    reveal_strlit("SchemeItemsListView=");
    reveal_strlit("SchemeItemsListView");
    reveal_strlit("schemeitemslistview");
    assert("SchemeItemsListView="@ =~= "SchemeItemsListView"@ + seq!['=']);
    assert(ascii_lowercase("SchemeItemsListView"@) =~= "schemeitemslistview"@);
}
proof fn lemma_key_language()
    ensures
        "Language="@ == "Language"@ + seq!['='],
        "Language"@.len() > 0,
        all_letters("Language"@),
        ascii_lowercase("Language"@) == "language"@,
{
    reveal_strlit("Language=");
    reveal_strlit("Language");
    reveal_strlit("language");
    assert("Language="@ =~= "Language"@ + seq!['=']);
    assert(ascii_lowercase("Language"@) =~= "language"@);
}

proof fn lemma_settings_line_facts(s: SpecSettings)
    requires
        settings_roundtrip_ok(s),
    ensures
        forall|i: int| 0 <= i < settings_lines(s).len() ==> no_newline(#[trigger] settings_lines(s)[i]),
        no_hash(join_comma(s.disabled_sound_events)),
        trim(join_comma(s.disabled_sound_events)) == join_comma(s.disabled_sound_events),
        letter_items(s.disabled_sound_events),
{
    let ls = settings_lines(s);
    let d = s.disabled_sound_events;
    reveal_strlit("; SoundManager Configuration File");
    reveal_strlit("; CDDL-1.0 - based on ORelio/Sound-Manager");
    reveal_strlit("[Main]");
    reveal_strlit("PatchStartupSound=");
    reveal_strlit("UseDefaultOnMissingSound=");
    reveal_strlit("ConvertProprietaryFiles=");
    reveal_strlit("PreferStartupSoundOnLogon=");
    reveal_strlit("DisabledSoundEvents=");
    reveal_strlit("SchemeItemsListView=");
    reveal_strlit("Language=");
    assert(letter_items(d)) by {
        assert forall|i: int| 0 <= i < d.len() implies (#[trigger] d[i]).len() > 0 && all_letters(d[i]) by {
            lemma_names_are_letters(d[i]);
        }
    }
    lemma_join_comma_chars(d);
    let jd = join_comma(d);
    assert(no_hash(jd) && no_newline(jd)) by {
        assert forall|j: int| 0 <= j < jd.len() implies jd[j] != '#' && jd[j] != '\n' by {
            assert(is_letter(jd[j]) || jd[j] == ',');
        }
    }
    if jd.len() > 0 {
        assert(is_letter(jd[0]));
        assert(is_letter(jd.last()));
    }
    lemma_trim_noop(jd);
    lemma_bool_text(s.patch_startup_sound);
    lemma_bool_text(s.missing_sound_use_default);
    lemma_bool_text(s.convert_proprietary_files);
    lemma_bool_text(s.prefer_startup_sound_on_logon);
    lemma_bool_text(s.scheme_items_list_view);
    assert forall|i: int| 0 <= i < ls.len() implies no_newline(#[trigger] ls[i]) by {
        if i == 4 {
            lemma_concat_no_newline("PatchStartupSound="@, bool_text(s.patch_startup_sound));
        } else if i == 5 {
            lemma_concat_no_newline("UseDefaultOnMissingSound="@, bool_text(s.missing_sound_use_default));
        } else if i == 6 {
            lemma_concat_no_newline("ConvertProprietaryFiles="@, bool_text(s.convert_proprietary_files));
        } else if i == 7 {
            lemma_concat_no_newline("PreferStartupSoundOnLogon="@, bool_text(s.prefer_startup_sound_on_logon));
        } else if i == 8 {
            lemma_concat_no_newline("DisabledSoundEvents="@, jd);
        } else if i == 9 {
            lemma_concat_no_newline("SchemeItemsListView="@, bool_text(s.scheme_items_list_view));
        } else if i == 10 {
            lemma_concat_no_newline("Language="@, s.language);
        }
    }
}

proof fn lemma_comment_lines()
    ensures
        "; SoundManager Configuration File"@.len() > 0,
        "; SoundManager Configuration File"@[0] == ';',
        no_hash("; SoundManager Configuration File"@),
        !is_ws("; SoundManager Configuration File"@.last()),
        "; CDDL-1.0 - based on ORelio/Sound-Manager"@.len() > 0,
        "; CDDL-1.0 - based on ORelio/Sound-Manager"@[0] == ';',
        no_hash("; CDDL-1.0 - based on ORelio/Sound-Manager"@),
        !is_ws("; CDDL-1.0 - based on ORelio/Sound-Manager"@.last()),
{
    reveal_strlit("; SoundManager Configuration File");
    reveal_strlit("; CDDL-1.0 - based on ORelio/Sound-Manager");
}

/// A written settings file reads back as one `main` section holding the
/// settings' entries.
proof fn lemma_settings_ini(s: SpecSettings)
    requires
        settings_roundtrip_ok(s),
    ensures
        spec_parse_ini(spec_settings_text(s)) == seq![("main"@, settings_entries(s))],
{
    let ls = settings_lines(s);
    let es = settings_entries(s);
    lemma_settings_line_facts(s);
    lemma_lines_join_crlf(ls);
    let f = ini_step_fn();
    let st0 = ini_init();
    lemma_comment_lines();
    lemma_fold_step(ls, 0, st0, f);
    lemma_comment_line(st0, ls[0]);
    lemma_fold_step(ls, 1, st0, f);
    lemma_comment_line(st0, ls[1]);
    lemma_fold_step(ls, 2, st0, f);
    assert(ini_step(st0, ls[2]) == st0);
    lemma_fold_step(ls, 3, st0, f);
    lemma_header_line();
    assert(es.take(0) =~= Seq::<(Seq<char>, Seq<char>)>::empty());
    lemma_bool_text(s.patch_startup_sound);
    lemma_bool_text(s.missing_sound_use_default);
    lemma_bool_text(s.convert_proprietary_files);
    lemma_bool_text(s.prefer_startup_sound_on_logon);
    lemma_bool_text(s.scheme_items_list_view);
    lemma_key_patchstartupsound();
    lemma_entry_step(ls, es, 0, "PatchStartupSound="@, "PatchStartupSound"@, "patchstartupsound"@, bool_text(s.patch_startup_sound));
    lemma_key_usedefaultonmissingsound();
    lemma_entry_step(ls, es, 1, "UseDefaultOnMissingSound="@, "UseDefaultOnMissingSound"@, "usedefaultonmissingsound"@, bool_text(s.missing_sound_use_default));
    lemma_key_convertproprietaryfiles();
    lemma_entry_step(ls, es, 2, "ConvertProprietaryFiles="@, "ConvertProprietaryFiles"@, "convertproprietaryfiles"@, bool_text(s.convert_proprietary_files));
    lemma_key_preferstartupsoundonlogon();
    lemma_entry_step(ls, es, 3, "PreferStartupSoundOnLogon="@, "PreferStartupSoundOnLogon"@, "preferstartupsoundonlogon"@, bool_text(s.prefer_startup_sound_on_logon));
    lemma_key_disabledsoundevents();
    lemma_entry_step(ls, es, 4, "DisabledSoundEvents="@, "DisabledSoundEvents"@, "disabledsoundevents"@, join_comma(s.disabled_sound_events));
    lemma_key_schemeitemslistview();
    lemma_entry_step(ls, es, 5, "SchemeItemsListView="@, "SchemeItemsListView"@, "schemeitemslistview"@, bool_text(s.scheme_items_list_view));
    lemma_key_language();
    lemma_entry_step(ls, es, 6, "Language="@, "Language"@, "language"@, s.language);
    assert(ls.take(11) =~= ls);
    assert(es.take(7) =~= es);
}

} // verus!

verus! {

proof fn lemma_parse_disabled_join(d: Seq<Seq<char>>)
    requires
        forall|i: int| 0 <= i < d.len() ==> event_names().contains(#[trigger] d[i]),
        letter_items(d),
    ensures
        parse_disabled(join_comma(d)) == d,
{
    if d.len() == 0 {
        let e = Seq::<char>::empty();
        assert(join_comma(d) == e);
        lemma_split_single(e, ',');
        assert(split(e, ',') == seq![e]);
        assert(seq![e].drop_last() =~= Seq::<Seq<char>>::empty());
        assert(trim(e) == e);
        assert(seq![e].last() == e);
        assert(keep_known_events(seq![e].drop_last()) =~= Seq::<Seq<char>>::empty());
        assert(keep_known_events(seq![e]) == keep_known_events(seq![e].drop_last()));
        assert(keep_known_events(seq![e]) =~= d);
    } else {
        lemma_split_join(d);
        lemma_keep_known_all(d);
    }
}

proof fn lemma_key_literals()
    ensures
        "patchstartupsound"@ != "win7patch"@,
        "usedefaultonmissingsound"@ != "win7patch"@,
        "usedefaultonmissingsound"@ != "patchstartupsound"@,
        "convertproprietaryfiles"@ != "win7patch"@,
        "convertproprietaryfiles"@ != "patchstartupsound"@,
        "convertproprietaryfiles"@ != "usedefaultonmissingsound"@,
        "preferstartupsoundonlogon"@ != "win7patch"@,
        "preferstartupsoundonlogon"@ != "patchstartupsound"@,
        "preferstartupsoundonlogon"@ != "usedefaultonmissingsound"@,
        "preferstartupsoundonlogon"@ != "convertproprietaryfiles"@,
        "disabledsoundevents"@ != "win7patch"@,
        "disabledsoundevents"@ != "patchstartupsound"@,
        "disabledsoundevents"@ != "usedefaultonmissingsound"@,
        "disabledsoundevents"@ != "convertproprietaryfiles"@,
        "disabledsoundevents"@ != "preferstartupsoundonlogon"@,
        "schemeitemslistview"@ != "win7patch"@,
        "schemeitemslistview"@ != "patchstartupsound"@,
        "schemeitemslistview"@ != "usedefaultonmissingsound"@,
        "schemeitemslistview"@ != "convertproprietaryfiles"@,
        "schemeitemslistview"@ != "preferstartupsoundonlogon"@,
        "schemeitemslistview"@ != "disabledsoundevents"@,
        "language"@ != "win7patch"@,
        "language"@ != "patchstartupsound"@,
        "language"@ != "usedefaultonmissingsound"@,
        "language"@ != "convertproprietaryfiles"@,
        "language"@ != "preferstartupsoundonlogon"@,
        "language"@ != "disabledsoundevents"@,
        "language"@ != "schemeitemslistview"@,
{
    reveal_strlit("patchstartupsound");
    reveal_strlit("usedefaultonmissingsound");
    reveal_strlit("convertproprietaryfiles");
    reveal_strlit("preferstartupsoundonlogon");
    reveal_strlit("disabledsoundevents");
    reveal_strlit("schemeitemslistview");
    reveal_strlit("language");
    reveal_strlit("win7patch");
    assert("patchstartupsound"@.len() == 17);
    assert("usedefaultonmissingsound"@.len() == 24);
    assert("convertproprietaryfiles"@.len() == 23);
    assert("preferstartupsoundonlogon"@.len() == 25);
    assert("disabledsoundevents"@.len() == 19);
    assert("schemeitemslistview"@.len() == 19);
    assert("language"@.len() == 8);
    assert("win7patch"@.len() == 9);
    assert("schemeitemslistview"@[0] != "disabledsoundevents"@[0]);
}

proof fn lemma_settings_entries(s: SpecSettings)
    requires
        settings_roundtrip_ok(s),
    ensures
        settings_entries(s).fold_left(default_settings(), settings_entry_fn()) == s,
{
    let es = settings_entries(s);
    let fe = settings_entry_fn();
    let d0 = default_settings();
    lemma_settings_line_facts(s);
    lemma_key_literals();
    lemma_parse_disabled_join(s.disabled_sound_events);
    lemma_bool_text(s.patch_startup_sound);
    lemma_bool_text(s.missing_sound_use_default);
    lemma_bool_text(s.convert_proprietary_files);
    lemma_bool_text(s.prefer_startup_sound_on_logon);
    lemma_bool_text(s.scheme_items_list_view);
    assert(es.take(0) =~= Seq::<(Seq<char>, Seq<char>)>::empty());
    lemma_fold_step(es, 0, d0, fe);
    lemma_fold_step(es, 1, d0, fe);
    lemma_fold_step(es, 2, d0, fe);
    lemma_fold_step(es, 3, d0, fe);
    lemma_fold_step(es, 4, d0, fe);
    lemma_fold_step(es, 5, d0, fe);
    lemma_fold_step(es, 6, d0, fe);
    assert(es.take(7) =~= es);
}

/// Lower-casing leaves `s` as it is.
pub open spec fn lower_fixed(s: Seq<char>) -> bool {
    spec_lowercase(s) == s
}

pub open spec fn entries_lower(e: SpecEntries) -> bool {
    forall|j: int| 0 <= j < e.len() ==> lower_fixed(#[trigger] e[j].0)
}

pub open spec fn state_lower(st: IniState) -> bool {
    &&& lower_fixed(st.cur_name)
    &&& entries_lower(st.cur_entries)
    &&& forall|i: int| 0 <= i < st.sections.len() ==> lower_fixed((#[trigger] st.sections[i]).0) && entries_lower(st.sections[i].1)
}

proof fn lemma_ini_step_lower(st: IniState, raw: Seq<char>)
    requires
        state_lower(st),
        is_ascii_seq(raw),
    ensures
        state_lower(ini_step(st, raw)),
{
    match find_char(raw, '#') {
        Some(i) => {
            lemma_find_char(raw, '#');
            lemma_ascii_subrange(raw, 0, i);
            assert(raw.take(i) =~= raw.subrange(0, i));
        },
        None => {},
    }
    lemma_ascii_trim(before_hash(raw));
    let line = trim(before_hash(raw));
    let next = ini_step(st, raw);
    if line.len() == 0 || line[0] == ';' {
    } else if line[0] == '[' && line.last() == ']' && line.len() > 2 {
        lemma_ascii_subrange(line, 1, line.len() - 1);
        lemma_ascii_lowercase_fixed(line.subrange(1, line.len() - 1));
        assert forall|i: int| 0 <= i < next.sections.len() implies lower_fixed((#[trigger] next.sections[i]).0)
            && entries_lower(next.sections[i].1) by {
            if i < st.sections.len() {
                assert(next.sections[i] == st.sections[i]);
            }
        }
    } else {
        match find_char(line, '=') {
            Some(eq) => {
                lemma_find_char(line, '=');
                lemma_ascii_subrange(line, 0, eq);
                assert(line.take(eq) =~= line.subrange(0, eq));
                lemma_ascii_trim(line.take(eq));
                lemma_ascii_lowercase_fixed(trim(line.take(eq)));
                assert forall|j: int| 0 <= j < next.cur_entries.len() implies lower_fixed(#[trigger] next.cur_entries[j].0) by {
                    if j < st.cur_entries.len() {
                        assert(next.cur_entries[j] == st.cur_entries[j]);
                    }
                }
            },
            None => {},
        }
    }
}

proof fn lemma_fold_lower(ls: Seq<Seq<char>>)
    requires
        forall|i: int| 0 <= i < ls.len() ==> is_ascii_seq(#[trigger] ls[i]),
    ensures
        state_lower(ls.fold_left(ini_init(), ini_step_fn())),
    decreases ls.len(),
{
    if ls.len() == 0 {
        reveal_strlit("default");
        lemma_ascii_lowercase_fixed("default"@);
        assert(is_ascii_seq("default"@));
        assert(ascii_lowercase("default"@) =~= "default"@);
    } else {
        let init = ls.drop_last();
        assert forall|i: int| 0 <= i < init.len() implies is_ascii_seq(#[trigger] init[i]) by {
            assert(init[i] == ls[i]);
        }
        lemma_fold_lower(init);
        assert(is_ascii_seq(ls[ls.len() - 1]));
        lemma_ini_step_lower(init.fold_left(ini_init(), ini_step_fn()), ls.last());
    }
}

/// The section names and keys that `parse_ini` reads from ASCII text are
/// lower case: lower-casing them again changes nothing.
pub proof fn law_parse_ini_lowercase(text: Seq<char>)
    requires
        is_ascii_seq(text),
    ensures
        forall|i: int| 0 <= i < spec_parse_ini(text).len() ==> lower_fixed((#[trigger] spec_parse_ini(text)[i]).0)
            && entries_lower(spec_parse_ini(text)[i].1),
{
    lemma_ascii_lines(text);
    lemma_fold_lower(lines(text));
    let st = lines(text).fold_left(ini_init(), ini_step_fn());
    let r = spec_parse_ini(text);
    assert forall|i: int| 0 <= i < r.len() implies lower_fixed((#[trigger] r[i]).0) && entries_lower(r[i].1) by {
        if i < st.sections.len() {
            assert(r[i] == st.sections[i]);
        }
    }
}

/// Writing settings to the settings file and reading the file back gives the
/// same settings, for every setting value the file format can carry: a
/// language on one line, trimmed and without `#`, and only known event names
/// among the disabled events.
pub proof fn law_settings_roundtrip(s: SpecSettings)
    requires
        settings_roundtrip_ok(s),
    ensures
        spec_load_from_text(spec_settings_text(s)) == s,
{
    lemma_settings_ini(s);
    let secs = seq![("main"@, settings_entries(s))];
    assert(secs.drop_last() =~= Seq::<(Seq<char>, SpecEntries)>::empty());
    assert(secs.drop_last().fold_left(default_settings(), settings_section_fn()) == default_settings());
    assert(secs.fold_left(default_settings(), settings_section_fn()) == settings_section(default_settings(), secs.last()));
    assert(secs.last() == ("main"@, settings_entries(s)));
    lemma_settings_entries(s);
}

} // verus!

verus! {

proof fn lemma_without_contains(s: Seq<Seq<char>>, x: Seq<char>, y: Seq<char>)
    ensures
        without(s, x).contains(y) == (s.contains(y) && y != x),
    decreases s.len(),
{
    if s.len() > 0 {
        lemma_without_contains(s.drop_last(), x, y);
        if s.contains(y) && y != x {
            let i = choose|i: int| 0 <= i < s.len() && s[i] == y;
            if i < s.len() - 1 {
                assert(s.drop_last()[i] == y);
            }
        }
        if s.drop_last().contains(y) {
            let i = choose|i: int| 0 <= i < s.drop_last().len() && s.drop_last()[i] == y;
            assert(s[i] == y);
        }
        if s.last() != x {
            let w = without(s.drop_last(), x);
            if w.push(s.last()).contains(y) {
                let i = choose|i: int| 0 <= i < w.push(s.last()).len() && w.push(s.last())[i] == y;
                if i < w.len() {
                    assert(w[i] == y);
                } else {
                    assert(s[s.len() - 1] == y);
                }
            }
            if w.contains(y) {
                let i = choose|i: int| 0 <= i < w.len() && w[i] == y;
                assert(w.push(s.last())[i] == y);
            }
            if y == s.last() {
                assert(w.push(s.last())[w.len() as int] == y);
            }
        }
        if s.last() == y {
            assert(s[s.len() - 1] == y);
        }
    }
}

/// After an event is disabled it reads as disabled, after it is enabled it
/// reads as enabled, and every other event keeps its state.
pub proof fn law_set_event_disabled(d: Seq<Seq<char>>, name: Seq<char>, disabled: bool, other: Seq<char>)
    ensures
        spec_set_disabled(d, name, disabled).contains(name) == disabled,
        other != name ==> spec_set_disabled(d, name, disabled).contains(other) == d.contains(other),
{
    lemma_without_contains(d, name, name);
    lemma_without_contains(d, name, other);
    if disabled && !d.contains(name) {
        assert(d.push(name)[d.len() as int] == name);
        if d.push(name).contains(other) && other != name {
            let i = choose|i: int| 0 <= i < d.push(name).len() && d.push(name)[i] == other;
            assert(d[i] == other);
        }
        if d.contains(other) {
            let i = choose|i: int| 0 <= i < d.len() && d[i] == other;
            assert(d.push(name)[i] == other);
        }
    }
}

/// The settings file: `%APPDATA%\SoundManager\SoundManager.ini` (the current
/// folder `.` in place of `APPDATA` when it is unset).
pub open spec fn spec_settings_file(appdata: Option<Seq<char>>) -> Seq<char> {
    let base = match appdata {
        Some(a) => a,
        None => "."@,
    };
    crate::paths::join_path(crate::paths::join_path(base, "SoundManager"@), "SoundManager.ini"@)
}

/// The path of the settings file, given the value of `APPDATA`.
pub fn settings_file(appdata: Option<&str>) -> (r: String)
    ensures
        r@ == spec_settings_file(match appdata {
            Some(a) => Some(a@),
            None => None,
        }),
{
    let base = match appdata {
        Some(a) => a,
        None => ".",
    };
    let d = crate::paths::join_path_exec(base, "SoundManager");
    crate::paths::join_path_exec(d.as_str(), "SoundManager.ini")
}

} // verus!
