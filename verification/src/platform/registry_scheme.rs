//! Sound schemes in `HKCU\AppEvents\Schemes`: what is read from and written to
//! the registry. The registry calls are made by the caller.

use vstd::prelude::*;
use vstd::string::StringExecFns;
use crate::errors::{CoreError, CoreResult};
use crate::paths::{join_path, join_path_exec};
use crate::text::{chars_of, string_of, trim, trim_bounds, str_eq, find_str, find_str_in, occurs_at, lemma_find_str};
use crate::domain::settings::{Settings, SpecSettings};
use crate::domain::sound_event::{SoundEvent, SpecSoundEvent, EventType, all_events, event_table, events_view};
use crate::platform::file_assoc::{RegModel, is_under, read_default};

verus! {

broadcast use vstd::string::group_string_axioms;

pub const REG_SCHEMES: &'static str = "AppEvents\\Schemes";
pub const REG_NAMES: &'static str = "AppEvents\\Schemes\\Names\\";
pub const REG_APPS: &'static str = "AppEvents\\Schemes\\Apps\\";
pub const SCHEME_MANAGER: &'static str = "SoundManager";
pub const SCHEME_DEFAULT: &'static str = ".Default";
pub const SCHEME_CURRENT: &'static str = ".Current";
pub const DISABLED_PLACEHOLDER: &'static str = "<DISABLED>";

/// A scheme: its registry key name and its display name.
#[derive(Debug, Clone)]
pub struct SchemeInfo {
    pub internal_name: String,
    pub display_name: String,
}

pub struct SpecSchemeInfo {
    pub internal_name: Seq<char>,
    pub display_name: Seq<char>,
}

impl View for SchemeInfo {
    type V = SpecSchemeInfo;

    open spec fn view(&self) -> SpecSchemeInfo {
        SpecSchemeInfo { internal_name: self.internal_name@, display_name: self.display_name@ }
    }
}

pub open spec fn schemes_view(v: Seq<SchemeInfo>) -> Seq<SpecSchemeInfo> {
    v.map_values(|s: SchemeInfo| s@)
}

/// The display name of a scheme: its registry value when that is neither blank
/// nor an indirect `@resource` string, else its key name.
pub open spec fn display_name_of(internal: Seq<char>, value: Option<Seq<char>>) -> Seq<char> {
    match value {
        Some(d) => if trim(d).len() > 0 && !(d.len() > 0 && d[0] == '@') {
            d
        } else {
            internal
        },
        None => internal,
    }
}

pub open spec fn names_view(e: Seq<(String, Option<String>)>) -> Seq<(Seq<char>, Option<Seq<char>>)> {
    e.map_values(|p: (String, Option<String>)| (p.0@, match p.1 {
        Some(d) => Some(d@),
        None => None,
    }))
}

/// The schemes listed under `Names`, from its subkey names with their default
/// values; a subkey with an empty name is skipped.
pub open spec fn spec_scheme_list(e: Seq<(Seq<char>, Option<Seq<char>>)>) -> Seq<SpecSchemeInfo>
    decreases e.len(),
{
    if e.len() == 0 {
        seq![]
    } else {
        let rest = spec_scheme_list(e.drop_last());
        let (internal, value) = e.last();
        if internal.len() == 0 {
            rest
        } else {
            rest.push(SpecSchemeInfo { internal_name: internal, display_name: display_name_of(internal, value) })
        }
    }
}

/// Lists the schemes (see `spec_scheme_list`), given each subkey of `Names`
/// with its default value.
pub fn get_scheme_list(names: &Vec<(String, Option<String>)>) -> (r: Vec<SchemeInfo>)
    ensures
        schemes_view(r@) == spec_scheme_list(names_view(names@)),
{
    let ghost nv = names_view(names@);
    let mut out: Vec<SchemeInfo> = Vec::new();
    let mut i: usize = 0;
    assert(nv.take(0) =~= Seq::<(Seq<char>, Option<Seq<char>>)>::empty());
    assert(schemes_view(out@) =~= Seq::<SpecSchemeInfo>::empty());
    while i < names.len()
        invariant
            nv == names_view(names@),
            i <= names.len(),
            schemes_view(out@) == spec_scheme_list(nv.take(i as int)),
        decreases names.len() - i,
    {
        let internal = &names[i].0;
        assert(nv.take(i + 1).drop_last() =~= nv.take(i as int));
        assert(nv.take(i + 1).last() == nv[i as int]);
        let ghost prev = schemes_view(out@);
        if !internal.as_str().is_empty() {
            let display = match &names[i].1 {
                Some(d) => {
                    let c = chars_of(d.as_str());
                    let n = c.len();
                    let (a, b) = trim_bounds(&c, 0, n);
                    assert(c@.subrange(0, n as int) =~= c@);
                    if a < b && !(n > 0 && c[0] == '@') {
                        d.clone()
                    } else {
                        internal.clone()
                    }
                },
                None => internal.clone(),
            };
            out.push(SchemeInfo { internal_name: internal.clone(), display_name: display });
            assert(schemes_view(out@) =~= prev.push(SpecSchemeInfo { internal_name: internal@, display_name: display_name_of(internal@, nv[i as int].1) }));
        }
        i = i + 1;
    }
    assert(nv.take(names.len() as int) =~= nv);
    out
}

} // verus!

verus! {

pub open spec fn spec_active(active: Option<Seq<char>>, list: Seq<SpecSchemeInfo>) -> Option<SpecSchemeInfo>
    decreases list.len(),
{
    match active {
        None => None,
        Some(a) => if list.len() == 0 {
            None
        } else if list[0].internal_name == a {
            Some(list[0])
        } else {
            spec_active(active, list.drop_first())
        },
    }
}

/// The active scheme: the first listed scheme whose key name is the value of
/// `AppEvents\Schemes` (`None` when that value is missing or names no scheme).
pub fn get_active_scheme(active: Option<&str>, list: &Vec<SchemeInfo>) -> (r: Option<SchemeInfo>)
    ensures
        match r {
            Some(s) => spec_active(match active { Some(a) => Some(a@), None => None }, schemes_view(list@)) == Some(s@),
            None => spec_active(match active { Some(a) => Some(a@), None => None }, schemes_view(list@)) is None,
        },
{
    let a = match active {
        Some(a) => a,
        None => return None,
    };
    let ghost lv = schemes_view(list@);
    let mut i: usize = 0;
    assert(lv.skip(0) =~= lv);
    while i < list.len()
        invariant
            lv == schemes_view(list@),
            active == Some(a),
            i <= list.len(),
            spec_active(Some(a@), lv) == spec_active(Some(a@), lv.skip(i as int)),
        decreases list.len() - i,
    {
        assert(lv.skip(i as int)[0] == list@[i as int]@);
        assert(lv.skip(i as int).drop_first() =~= lv.skip(i + 1));
        if str_eq(list[i].internal_name.as_str(), a) {
            let s = SchemeInfo {
                internal_name: list[i].internal_name.clone(),
                display_name: list[i].display_name.clone(),
            };
            assert(lv[i as int] == s@);
            assert(lv.skip(i as int)[0] == s@);
            assert(lv.skip(i as int).len() > 0);
            assert(s@.internal_name == a@);
            assert(spec_active(Some(a@), lv.skip(i as int)) == Some(s@));
            assert(spec_active(Some(a@), lv) == Some(s@));
            assert(active == Some(a));
            assert(schemes_view(list@) == lv);
            return Some(s);
        }
        i = i + 1;
    }
    None
}

/// The Sound Manager scheme exists when `Names\SoundManager` has a default
/// value, `name_value`.
pub open spec fn spec_already_setup(name_value: Option<Seq<char>>) -> bool {
    name_value is Some
}

/// The Sound Manager scheme exists when `Names\SoundManager` has a default value.
pub fn already_setup(manager_name_value: Option<&str>) -> (r: bool)
    ensures
        r == spec_already_setup(opt_str(manager_name_value)),
{
    manager_name_value.is_some()
}

/// The value registered for an event in the Sound Manager scheme: the event's
/// file in `media_dir`, or `<DISABLED>` when the event is disabled (the
/// `Select` event also while the main window is open).
pub open spec fn setup_value(s: SpecSettings, media_dir: Seq<char>, form_main_open: bool, ev: SpecSoundEvent) -> Seq<char> {
    if s.disabled_sound_events.contains(ev.name) || (ev.event_type == Some(EventType::Select) && form_main_open) {
        "<DISABLED>"@
    } else {
        join_path(media_dir, ev.name + ".wav"@)
    }
}

pub open spec fn manager_key(reg_key: Seq<char>) -> Seq<char> {
    "AppEvents\\Schemes\\Apps\\"@ + reg_key + "\\SoundManager"@
}

pub open spec fn event_writes(ev: SpecSoundEvent, value: Seq<char>) -> Seq<(Seq<char>, Seq<char>)> {
    ev.keys.map_values(|k: Seq<char>| (manager_key(k), value))
}

pub open spec fn events_writes(
    evs: Seq<SpecSoundEvent>,
    s: SpecSettings,
    media_dir: Seq<char>,
    form_main_open: bool,
) -> Seq<(Seq<char>, Seq<char>)>
    decreases evs.len(),
{
    if evs.len() == 0 {
        seq![]
    } else {
        events_writes(evs.drop_last(), s, media_dir, form_main_open) + event_writes(
            evs.last(),
            setup_value(s, media_dir, form_main_open, evs.last()),
        )
    }
}

/// The registry default values `setup` writes, in order: the scheme's display
/// name under `Names\SoundManager`, then each key of each event under the
/// Sound Manager scheme.
pub open spec fn spec_setup(s: SpecSettings, media_dir: Seq<char>, form_main_open: bool) -> Seq<(Seq<char>, Seq<char>)> {
    seq![("AppEvents\\Schemes\\Names\\SoundManager"@, "Sound Manager"@)] + events_writes(
        event_table(),
        s,
        media_dir,
        form_main_open,
    )
}

pub open spec fn writes_view(v: Seq<(String, String)>) -> Seq<(Seq<char>, Seq<char>)> {
    v.map_values(|p: (String, String)| (p.0@, p.1@))
}

/// Creates or refreshes the Sound Manager scheme: the `(key path, value)`
/// default values to write under HKCU (see `spec_setup`).
pub fn setup(settings: &Settings, media_dir: &str, form_main_open: bool) -> (r: Vec<(String, String)>)
    ensures
        writes_view(r@) == spec_setup(settings@, media_dir@, form_main_open),
{
    let mut out: Vec<(String, String)> = Vec::new();
    out.push(("AppEvents\\Schemes\\Names\\SoundManager".to_owned(), "Sound Manager".to_owned()));
    let evs = all_events();
    let ghost table = event_table();
    let ghost head = seq![("AppEvents\\Schemes\\Names\\SoundManager"@, "Sound Manager"@)];
    assert(writes_view(out@) =~= head);
    assert(table.take(0) =~= Seq::<SpecSoundEvent>::empty());
    assert(head =~= head + events_writes(table.take(0), settings@, media_dir@, form_main_open));
    let mut i: usize = 0;
    while i < evs.len()
        invariant
            events_view(evs@) == table,
            table == event_table(),
            i <= evs.len(),
            writes_view(out@) == head + events_writes(table.take(i as int), settings@, media_dir@, form_main_open),
        decreases evs.len() - i,
    {
        let ev = &evs[i];
        assert(table[i as int] == ev@);
        let temp_disable = form_main_open && ev.event_type == Some(EventType::Select);
        let value = if settings.is_event_disabled(ev.internal_name) || temp_disable {
            "<DISABLED>".to_owned()
        } else {
            ev.file_path(media_dir)
        };
        assert(value@ == setup_value(settings@, media_dir@, form_main_open, ev@));
        let ghost before = writes_view(out@);
        let mut j: usize = 0;
        while j < ev.registry_keys.len()
            invariant
                j <= ev.registry_keys.len(),
                writes_view(out@) == before + event_writes(ev@, value@).take(j as int),
            decreases ev.registry_keys.len() - j,
        {
            let mut key = "AppEvents\\Schemes\\Apps\\".to_owned();
            key.append(ev.registry_keys[j]);
            key.append("\\SoundManager");
            let ghost kv = key@;
            assert(kv == manager_key(ev.registry_keys@[j as int]@));
            assert(ev@.keys[j as int] == ev.registry_keys@[j as int]@);
            let vc = value.clone();
            let ghost prev_out = writes_view(out@);
            out.push((key, vc));
            assert(writes_view(out@) =~= prev_out.push((kv, value@)));
            assert(event_writes(ev@, value@)[j as int] == (manager_key(ev.registry_keys@[j as int]@), value@));
            assert(event_writes(ev@, value@).take(j + 1) =~= event_writes(ev@, value@).take(j as int).push((kv, value@)));
            assert(writes_view(out@) =~= before + event_writes(ev@, value@).take(j + 1));
            j = j + 1;
        }
        assert(event_writes(ev@, value@).take(j as int) =~= event_writes(ev@, value@));
        assert(table.take(i + 1).drop_last() =~= table.take(i as int));
        assert(table.take(i + 1).last() == ev@);
        assert(writes_view(out@) =~= head + events_writes(table.take(i + 1), settings@, media_dir@, form_main_open));
        i = i + 1;
    }
    assert(table.take(evs.len() as int) =~= table);
    out
}

} // verus!

verus! {

/// What the `.Current` value of one sound becomes when a scheme is applied.
/// `scheme_sound` is the scheme's value for the sound; `default_key` is `None`
/// when the sound has no `.Default` key, else that key's value. The two flags
/// say whether each value, with environment variables expanded, names an
/// existing file. With `missing_use_default`, a missing (but not disabled)
/// sound falls back to the default one; a value that names no file becomes
/// empty.
pub open spec fn spec_current_value(
    scheme_sound: Option<Seq<char>>,
    scheme_is_file: bool,
    default_key: Option<Option<Seq<char>>>,
    default_is_file: bool,
    missing_use_default: bool,
) -> Seq<char> {
    let missing = match scheme_sound {
        Some(_) => !scheme_is_file,
        None => true,
    };
    let disabled = scheme_sound == Some("<DISABLED>"@);
    let use_default = missing_use_default && missing && !disabled && default_key is Some;
    let (value, exists) = if use_default {
        (default_key->0, default_is_file)
    } else {
        (scheme_sound, scheme_is_file)
    };
    match value {
        Some(p) => if exists {
            p
        } else {
            seq![]
        },
        None => seq![],
    }
}

pub open spec fn opt_str(o: Option<&str>) -> Option<Seq<char>> {
    match o {
        Some(s) => Some(s@),
        None => None,
    }
}

/// The `.Current` value written for one sound (see `spec_current_value`).
pub fn current_value(
    scheme_sound: Option<&str>,
    scheme_is_file: bool,
    default_key: Option<Option<&str>>,
    default_is_file: bool,
    missing_use_default: bool,
) -> (r: String)
    ensures
        r@ == spec_current_value(
            opt_str(scheme_sound),
            scheme_is_file,
            match default_key {
                Some(d) => Some(opt_str(d)),
                None => None,
            },
            default_is_file,
            missing_use_default,
        ),
{
    let missing = match scheme_sound {
        Some(_) => !scheme_is_file,
        None => true,
    };
    let disabled = match scheme_sound {
        Some(p) => str_eq(p, "<DISABLED>"),
        None => false,
    };
    let (value, exists) = match default_key {
        Some(d) if missing_use_default && missing && !disabled => (d, default_is_file),
        _ => (scheme_sound, scheme_is_file),
    };
    match value {
        Some(p) => if exists {
            p.to_owned()
        } else {
            String::new()
        },
        None => String::new(),
    }
}

pub open spec fn missing_scheme_msg(scheme: Seq<char>) -> Seq<char> {
    "scheme '"@ + scheme + "' does not exist"@
}

/// A scheme can be applied only when `Names\<scheme>` has a default value.
pub fn check_scheme_exists(scheme_internal: &str, names_value: Option<&str>) -> (r: CoreResult<()>)
    ensures
        names_value is Some ==> r is Ok,
        names_value is None ==> (r matches Err(CoreError::Scheme(m)) && m@ == missing_scheme_msg(scheme_internal@)),
{
    if names_value.is_none() {
        let mut m = "scheme '".to_owned();
        m.append(scheme_internal);
        m.append("' does not exist");
        return Err(CoreError::Scheme(m));
    }
    Ok(())
}

/// `str::replace(pat, rep)` for a non-empty `pat`: every occurrence, from the
/// left and without overlap, replaced by `rep`.
pub open spec fn replace_all(s: Seq<char>, pat: Seq<char>, rep: Seq<char>) -> Seq<char>
    decreases s.len(),
{
    if pat.len() == 0 {
        s
    } else {
        match find_str(s, pat) {
            Some(i) => if 0 <= i && i + pat.len() <= s.len() {
                s.take(i) + rep + replace_all(s.skip(i + pat.len()), pat, rep)
            } else {
                s
            },
            None => s,
        }
    }
}

pub open spec fn env_pattern(k: Seq<char>) -> Seq<char> {
    seq!['%'] + k + seq!['%']
}

pub open spec fn env_step(s: Seq<char>, kv: (Seq<char>, Seq<char>)) -> Seq<char> {
    replace_all(s, env_pattern(kv.0), kv.1)
}

pub open spec fn env_step_fn() -> spec_fn(Seq<char>, (Seq<char>, Seq<char>)) -> Seq<char> {
    |s: Seq<char>, kv: (Seq<char>, Seq<char>)| env_step(s, kv)
}

/// `%NAME%` references replaced by the values of the given environment
/// variables, one variable after another in the given order.
pub open spec fn spec_expand_env(s: Seq<char>, vars: Seq<(Seq<char>, Seq<char>)>) -> Seq<char> {
    vars.fold_left(s, env_step_fn())
}

pub open spec fn vars_view(v: Seq<(String, String)>) -> Seq<(Seq<char>, Seq<char>)> {
    v.map_values(|p: (String, String)| (p.0@, p.1@))
}

fn replace_all_exec(s: &str, pat: &str, rep: &str) -> (r: String)
    requires
        pat@.len() > 0,
    ensures
        r@ == replace_all(s@, pat@, rep@),
{
    let v = chars_of(s);
    let p = chars_of(pat);
    let n = v.len();
    let mut out = String::new();
    let mut start: usize = 0;
    assert(v@.subrange(0, n as int) =~= s@);
    loop
        invariant
            v@ == s@,
            p@ == pat@,
            p@.len() > 0,
            n == v.len(),
            start <= n,
            replace_all(s@, pat@, rep@) == out@ + replace_all(v@.subrange(start as int, n as int), pat@, rep@),
        decreases n - start,
    {
        let ghost rest = v@.subrange(start as int, n as int);
        proof {
            lemma_find_str(rest, pat@);
        }
        match find_str_in(&v, start, n, &p) {
            None => {
                let tail = string_of(&v, start, n);
                out.append(tail.as_str());
                return out;
            },
            Some(k) => {
                assert(occurs_at(rest, pat@, k - start));
                let piece = string_of(&v, start, k);
                out.append(piece.as_str());
                out.append(rep);
                assert(rest.take(k - start) =~= v@.subrange(start as int, k as int));
                assert(rest.skip(k - start + p.len()) =~= v@.subrange(k + p.len(), n as int));
                start = k + p.len();
            },
        }
    }
}

/// Expands `%NAME%` references (see `spec_expand_env`) with the given
/// environment variables, in the order given.
pub fn expand_env(s: &str, vars: &Vec<(String, String)>) -> (r: String)
    ensures
        r@ == spec_expand_env(s@, vars_view(vars@)),
{
    let ghost vv = vars_view(vars@);
    let mut out = s.to_owned();
    let mut i: usize = 0;
    assert(vv.take(0).fold_left(s@, env_step_fn()) == s@);
    while i < vars.len()
        invariant
            vv == vars_view(vars@),
            i <= vars.len(),
            out@ == vv.take(i as int).fold_left(s@, env_step_fn()),
        decreases vars.len() - i,
    {
        let mut pat = "%".to_owned();
        pat.append(vars[i].0.as_str());
        pat.append("%");
        proof {
            reveal_strlit("%");
            assert(pat@ =~= env_pattern(vars@[i as int].0@));
        }
        let next = replace_all_exec(out.as_str(), pat.as_str(), vars[i].1.as_str());
        assert(vv[i as int] == (vars@[i as int].0@, vars@[i as int].1@));
        assert(vv.take(i + 1).drop_last() =~= vv.take(i as int));
        out = next;
        i = i + 1;
    }
    assert(vv.take(vars.len() as int) =~= vv);
    out
}

/// The file an event plays in the applied scheme: for each registry key of
/// the event that has a `.Current` value, that value expanded and whether it
/// names a file; the first one that does.
pub open spec fn spec_current_file(c: Seq<Option<(Seq<char>, bool)>>) -> Option<Seq<char>>
    decreases c.len(),
{
    if c.len() == 0 {
        None
    } else {
        match c[0] {
            Some((p, true)) => Some(p),
            _ => spec_current_file(c.drop_first()),
        }
    }
}

pub open spec fn candidates_view(c: Seq<Option<(String, bool)>>) -> Seq<Option<(Seq<char>, bool)>> {
    c.map_values(|o: Option<(String, bool)>| match o {
        Some((p, b)) => Some((p@, b)),
        None => None,
    })
}

/// See `spec_current_file`.
pub fn get_current_file(candidates: &Vec<Option<(String, bool)>>) -> (r: Option<String>)
    ensures
        match r {
            Some(p) => spec_current_file(candidates_view(candidates@)) == Some(p@),
            None => spec_current_file(candidates_view(candidates@)) is None,
        },
{
    let ghost cv = candidates_view(candidates@);
    let mut i: usize = 0;
    assert(cv.skip(0) =~= cv);
    while i < candidates.len()
        invariant
            cv == candidates_view(candidates@),
            i <= candidates.len(),
            spec_current_file(cv) == spec_current_file(cv.skip(i as int)),
        decreases candidates.len() - i,
    {
        assert(cv.skip(i as int).drop_first() =~= cv.skip(i + 1));
        assert(cv.skip(i as int)[0] == cv[i as int]);
        match &candidates[i] {
            Some((p, true)) => {
                return Some(p.clone());
            },
            _ => {},
        }
        i = i + 1;
    }
    None
}

// ------------------------------------------------------------------ removal

/// The key of an event's sound in a scheme:
/// `AppEvents\Schemes\Apps\<event key>\<scheme>`.
pub open spec fn scheme_key(reg_key: Seq<char>, scheme: Seq<char>) -> Seq<char> {
    "AppEvents\\Schemes\\Apps\\"@ + reg_key + "\\"@ + scheme
}

pub open spec fn event_scheme_keys(ev: SpecSoundEvent, scheme: Seq<char>) -> Seq<Seq<char>> {
    ev.keys.map_values(|k: Seq<char>| scheme_key(k, scheme))
}

pub open spec fn keys_view(v: Seq<String>) -> Seq<Seq<char>> {
    v.map_values(|s: String| s@)
}

/// The keys of `ev`'s sound in the scheme `scheme`, one per registry key of
/// the event.
pub fn event_keys_in(ev: &SoundEvent, scheme: &str) -> (r: Vec<String>)
    ensures
        keys_view(r@) == event_scheme_keys(ev@, scheme@),
{
    let mut out: Vec<String> = Vec::new();
    let mut j: usize = 0;
    while j < ev.registry_keys.len()
        invariant
            j <= ev.registry_keys.len(),
            keys_view(out@) == event_scheme_keys(ev@, scheme@).take(j as int),
        decreases ev.registry_keys.len() - j,
    {
        let mut key = "AppEvents\\Schemes\\Apps\\".to_owned();
        key.append(ev.registry_keys[j]);
        key.append("\\");
        key.append(scheme);
        assert(ev@.keys[j as int] == ev.registry_keys@[j as int]@);
        let ghost prev = keys_view(out@);
        let ghost kv = key@;
        out.push(key);
        assert(keys_view(out@) =~= prev.push(kv));
        assert(event_scheme_keys(ev@, scheme@).take(j + 1) =~= event_scheme_keys(ev@, scheme@).take(j as int).push(kv));
        j = j + 1;
    }
    assert(event_scheme_keys(ev@, scheme@).take(j as int) =~= event_scheme_keys(ev@, scheme@));
    out
}

/// The keys read when copying an event's default sound: the event's keys in
/// `source` (`.Default` when none is given). The caller copies each value
/// that names an existing file (after `expand_env`) to the event's file, and
/// removes the event (`remove_writes`) when none does.
pub fn copy_default_keys(ev: &SoundEvent, source: Option<&str>) -> (r: Vec<String>)
    ensures
        keys_view(r@) == event_scheme_keys(ev@, match source {
            Some(s) => s@,
            None => ".Default"@,
        }),
{
    match source {
        Some(s) => event_keys_in(ev, s),
        None => event_keys_in(ev, ".Default"),
    }
}

/// Removing an event's sound from the Sound Manager scheme: the caller
/// deletes the event's file and writes `<DISABLED>` to each of its keys in
/// the scheme (failures of those writes are ignored).
pub fn remove_writes(ev: &SoundEvent) -> (r: Vec<(String, String)>)
    ensures
        writes_view(r@) == event_writes(ev@, "<DISABLED>"@),
{
    let keys = event_keys_in(ev, "SoundManager");
    let mut out: Vec<(String, String)> = Vec::new();
    let mut j: usize = 0;
    assert(keys_view(keys@).len() == keys@.len());
    proof {
        reveal_strlit("SoundManager");
        reveal_strlit("\\SoundManager");
        reveal_strlit("\\");
        assert("\\"@ + "SoundManager"@ =~= "\\SoundManager"@);
    }
    while j < keys.len()
        invariant
            j <= keys.len(),
            keys_view(keys@) == event_scheme_keys(ev@, "SoundManager"@),
            keys@.len() == ev@.keys.len(),
            "\\"@ + "SoundManager"@ == "\\SoundManager"@,
            writes_view(out@) == event_writes(ev@, "<DISABLED>"@).take(j as int),
        decreases keys.len() - j,
    {
        let k = keys[j].clone();
        let ghost prev = writes_view(out@);
        let ghost kv = k@;
        assert(keys_view(keys@)[j as int] == keys@[j as int]@);
        assert(kv == scheme_key(ev@.keys[j as int], "SoundManager"@));
        assert(kv =~= manager_key(ev@.keys[j as int]));
        out.push((k, "<DISABLED>".to_owned()));
        assert(writes_view(out@) =~= prev.push((kv, "<DISABLED>"@)));
        assert(event_writes(ev@, "<DISABLED>"@).take(j + 1) =~= event_writes(ev@, "<DISABLED>"@).take(j as int).push((kv, "<DISABLED>"@)));
        j = j + 1;
    }
    assert(event_writes(ev@, "<DISABLED>"@).take(j as int) =~= event_writes(ev@, "<DISABLED>"@));
    out
}

/// Uninstalling first applies `.Default` (with missing sounds replaced by
/// the default ones) when the Sound Manager scheme is the active one.
pub fn uninstall_applies_default(active: Option<&SchemeInfo>) -> (r: bool)
    ensures
        r == (active matches Some(a) && a.internal_name@ == "SoundManager"@),
{
    match active {
        Some(a) => str_eq(a.internal_name.as_str(), "SoundManager"),
        None => false,
    }
}

/// The keys of the Sound Manager scheme under each sound of each
/// application, in order (`apps` lists each application key with its sound
/// subkeys).
pub open spec fn spec_uninstall_keys(apps: Seq<(Seq<char>, Seq<Seq<char>>)>) -> Seq<Seq<char>>
    decreases apps.len(),
{
    if apps.len() == 0 {
        seq![]
    } else {
        let (app, sounds) = apps.last();
        spec_uninstall_keys(apps.drop_last()) + sounds.map_values(|s: Seq<char>| scheme_key(app + "\\"@ + s, "SoundManager"@))
    }
}

pub open spec fn apps_view(v: Seq<(String, Vec<String>)>) -> Seq<(Seq<char>, Seq<Seq<char>>)> {
    v.map_values(|p: (String, Vec<String>)| (p.0@, keys_view(p.1@)))
}

/// The keys that uninstalling deletes under `Apps` (failures ignored); the
/// caller then deletes `Names\SoundManager`.
pub fn uninstall_keys(apps: &Vec<(String, Vec<String>)>) -> (r: Vec<String>)
    ensures
        keys_view(r@) == spec_uninstall_keys(apps_view(apps@)),
{
    let ghost av = apps_view(apps@);
    let mut out: Vec<String> = Vec::new();
    let mut i: usize = 0;
    assert(av.take(0) =~= Seq::<(Seq<char>, Seq<Seq<char>>)>::empty());
    while i < apps.len()
        invariant
            av == apps_view(apps@),
            i <= apps.len(),
            keys_view(out@) == spec_uninstall_keys(av.take(i as int)),
        decreases apps.len() - i,
    {
        let app = &apps[i].0;
        let sounds = &apps[i].1;
        let ghost before = keys_view(out@);
        let ghost mapped = keys_view(sounds@).map_values(|s: Seq<char>| scheme_key(app@ + "\\"@ + s, "SoundManager"@));
        let mut j: usize = 0;
        while j < sounds.len()
            invariant
                j <= sounds.len(),
                mapped == keys_view(sounds@).map_values(|s: Seq<char>| scheme_key(app@ + "\\"@ + s, "SoundManager"@)),
                keys_view(out@) == before + mapped.take(j as int),
            decreases sounds.len() - j,
        {
            let mut key = "AppEvents\\Schemes\\Apps\\".to_owned();
            key.append(app.as_str());
            key.append("\\");
            key.append(sounds[j].as_str());
            key.append("\\SoundManager");
            let ghost kv = key@;
            proof {
                reveal_strlit("\\SoundManager");
                reveal_strlit("\\");
                reveal_strlit("SoundManager");
            }
            assert(kv =~= scheme_key(app@ + "\\"@ + sounds@[j as int]@, "SoundManager"@));
            let ghost prev = keys_view(out@);
            out.push(key);
            assert(keys_view(out@) =~= prev.push(kv));
            assert(mapped.take(j + 1) =~= mapped.take(j as int).push(kv));
            j = j + 1;
        }
        assert(mapped.take(j as int) =~= mapped);
        assert(av.take(i + 1).drop_last() =~= av.take(i as int));
        assert(av.take(i + 1).last() == (app@, keys_view(sounds@)));
        i = i + 1;
    }
    assert(av.take(apps.len() as int) =~= av);
    out
}

/// After `setup`, applying the Sound Manager scheme gives each event the
/// value `setup` wrote when that names an existing file: the event's own
/// sound. A disabled event (whose value `<DISABLED>` names no file) gets no
/// sound, even when missing sounds fall back to the default ones.
pub proof fn law_setup_then_apply(
    s: SpecSettings,
    media_dir: Seq<char>,
    form_main_open: bool,
    ev: SpecSoundEvent,
    value_is_file: bool,
    default_key: Option<Option<Seq<char>>>,
    default_is_file: bool,
    missing_use_default: bool,
)
    ensures
        ({
            let v = setup_value(s, media_dir, form_main_open, ev);
            &&& value_is_file ==> spec_current_value(Some(v), value_is_file, default_key, default_is_file, missing_use_default) == v
            &&& (v == "<DISABLED>"@ && !value_is_file) ==> spec_current_value(
                Some(v),
                value_is_file,
                default_key,
                default_is_file,
                missing_use_default,
            ) == Seq::<char>::empty()
        }),
{
}

/// The key whose default value names the Sound Manager scheme.
pub open spec fn names_key() -> Seq<char> {
    "AppEvents\\Schemes\\Names\\SoundManager"@
}

/// The registry after the default values `w` are written, in order.
pub open spec fn apply_writes(m: RegModel, w: Seq<(Seq<char>, Seq<char>)>) -> RegModel
    decreases w.len(),
{
    if w.len() == 0 {
        m
    } else {
        apply_writes(m, w.drop_last()).insert(w.last().0, w.last().1)
    }
}

/// The registry after the key `k` is deleted with its subkeys.
pub open spec fn delete_tree(m: RegModel, k: Seq<char>) -> RegModel {
    m.restrict(m.dom().filter(|x: Seq<char>| !is_under(x, k)))
}

/// The registry after the keys `keys` are deleted, in order.
pub open spec fn apply_deletes(m: RegModel, keys: Seq<Seq<char>>) -> RegModel
    decreases keys.len(),
{
    if keys.len() == 0 {
        m
    } else {
        delete_tree(apply_deletes(m, keys.drop_last()), keys.last())
    }
}

/// The registry after uninstalling: the scheme's keys under each sound of
/// each application (`apps`), then `Names\SoundManager`.
pub open spec fn spec_uninstall(m: RegModel, apps: Seq<(Seq<char>, Seq<Seq<char>>)>) -> RegModel {
    delete_tree(apply_deletes(m, spec_uninstall_keys(apps)), names_key())
}

proof fn lemma_writes_keep(m: RegModel, w: Seq<(Seq<char>, Seq<char>)>, k: Seq<char>)
    requires
        m.dom().contains(k),
    ensures
        apply_writes(m, w).dom().contains(k),
    decreases w.len(),
{
    if w.len() > 0 {
        lemma_writes_keep(m, w.drop_last(), k);
    }
}

proof fn lemma_writes_concat(m: RegModel, a: Seq<(Seq<char>, Seq<char>)>, b: Seq<(Seq<char>, Seq<char>)>)
    ensures
        apply_writes(m, a + b) == apply_writes(apply_writes(m, a), b),
    decreases b.len(),
{
    if b.len() == 0 {
        assert(a + b =~= a);
    } else {
        lemma_writes_concat(m, a, b.drop_last());
        assert((a + b).drop_last() =~= a + b.drop_last());
        assert((a + b).last() == b.last());
    }
}

/// Whatever the registry held, once the values of `setup` are written the
/// Sound Manager scheme reads as set up, and once uninstalling has deleted
/// its keys it does not.
pub proof fn law_setup_then_already_setup(
    m: RegModel,
    s: SpecSettings,
    media_dir: Seq<char>,
    form_main_open: bool,
    apps: Seq<(Seq<char>, Seq<Seq<char>>)>,
)
    ensures
        spec_already_setup(read_default(apply_writes(m, spec_setup(s, media_dir, form_main_open)), names_key())),
        !spec_already_setup(read_default(spec_uninstall(m, apps), names_key())),
{
    let first = seq![(names_key(), "Sound Manager"@)];
    let rest = events_writes(event_table(), s, media_dir, form_main_open);
    assert(spec_setup(s, media_dir, form_main_open) == first + rest);
    lemma_writes_concat(m, first, rest);
    assert(first.drop_last() =~= Seq::<(Seq<char>, Seq<char>)>::empty());
    assert(apply_writes(m, first).dom().contains(names_key()));
    lemma_writes_keep(apply_writes(m, first), rest, names_key());
    assert(is_under(names_key(), names_key()));
}

/// Applying a scheme with "use default on missing sound": a sound that the
/// scheme has no value for, or whose value names no existing file (and is
/// not `<DISABLED>`), gets its `.Default` sound when that names an existing
/// file; a sound whose value names an existing file keeps it, whatever the
/// setting. A default that names no file, or the setting off, leaves such a
/// sound silent, and a disabled sound stays silent.
pub proof fn law_missing_sound_uses_default(
    scheme_sound: Option<Seq<char>>,
    scheme_is_file: bool,
    default_sound: Seq<char>,
    kept: Seq<char>,
    default_key: Option<Option<Seq<char>>>,
    default_is_file: bool,
    missing_use_default: bool,
)
    requires
        scheme_sound is None || (!scheme_is_file && scheme_sound != Some("<DISABLED>"@)),
    ensures
        spec_current_value(scheme_sound, scheme_is_file, Some(Some(default_sound)), true, true) == default_sound,
        spec_current_value(Some(kept), true, default_key, default_is_file, missing_use_default) == kept,
        spec_current_value(scheme_sound, scheme_is_file, Some(Some(default_sound)), false, true) == Seq::<char>::empty(),
        spec_current_value(scheme_sound, scheme_is_file, default_key, default_is_file, false) == Seq::<char>::empty(),
        spec_current_value(Some("<DISABLED>"@), false, default_key, default_is_file, missing_use_default) == Seq::<char>::empty(),
{
}

} // verus!
