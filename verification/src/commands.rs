//! The data the user interface receives, and the decisions of its commands.
//! The commands themselves (file, registry and window work) are run by the
//! caller.

use vstd::prelude::*;
use vstd::string::StringExecFns;
use crate::errors::{CoreError, spec_kind, spec_message};
use crate::text::{lowercase, spec_lowercase};
use crate::paths::{join_path, join_path_exec, spec_with_extension, with_extension};
use crate::domain::settings::Settings;
use crate::domain::sound_event::{SoundEvent, SpecSoundEvent, EventType, event_table, events_view, all_events};
use crate::domain::translation::{translate, spec_get_in, file_table, file_entries, opt_str_view};
use crate::platform::version::{WindowsVersionInfo, spec_is_at_least};
use crate::platform::imageres::{is_patching_possible, is_patching_required, is_patching_not_recommended};
use crate::platform::registry_scheme::SchemeInfo;

verus! {

broadcast use vstd::string::group_string_axioms;

/// Facts about the application shown by the user interface.
#[derive(Debug)]
pub struct AppInfo {
    pub version: &'static str,
    pub language: String,
    pub windows_friendly: String,
    pub is_admin: bool,
    pub media_dir: String,
}

/// A sound event as listed by the user interface.
#[derive(Debug)]
pub struct SoundEventDto {
    pub internal_name: String,
    pub display_name: String,
    pub description: String,
    pub disabled: bool,
    pub has_file: bool,
    pub file_name: Option<String>,
}

/// A sound scheme as listed by the user interface.
#[derive(Debug)]
pub struct SchemeDto {
    pub internal_name: String,
    pub display_name: String,
}

/// What the user interface shows about startup sound patching.
#[derive(Debug)]
pub struct PatchingFlags {
    pub possible: bool,
    pub required: bool,
    pub not_recommended: bool,
    pub is_admin: bool,
}

/// A language's strings for the user interface.
#[derive(Debug)]
pub struct LocaleDto {
    pub key: String,
    pub entries: Vec<(String, String)>,
}

/// An error as the user interface receives it: `<kind>: <message>`.
pub fn err_to_string(e: &CoreError) -> (r: String)
    ensures
        r@ == spec_kind(*e) + ": "@ + spec_message(*e),
{
    let mut r = e.kind().to_owned();
    r.append(": ");
    let m = e.message();
    r.append(m.as_str());
    r
}

/// The information about the application.
pub fn app_info(
    version: &'static str,
    language: &str,
    v: &WindowsVersionInfo,
    is_admin: bool,
    media_dir: &str,
) -> (r: AppInfo)
    ensures
        r.version == version,
        r.language@ == language@,
        r.windows_friendly@ == v.friendly_name@,
        r.is_admin == is_admin,
        r.media_dir@ == media_dir@,
{
    AppInfo {
        version,
        language: language.to_owned(),
        windows_friendly: v.friendly_name.clone(),
        is_admin,
        media_dir: media_dir.to_owned(),
    }
}

/// The translation key of an event's name or description:
/// `event_<lower-case internal name>_<suffix>`.
pub open spec fn event_key(ev: SpecSoundEvent, suffix: Seq<char>) -> Seq<char> {
    "event_"@ + spec_lowercase(ev.name) + "_"@ + suffix
}

/// What the user interface lists for an event: its translated name and
/// description, whether it is disabled, whether its file exists and then
/// the file's name.
pub open spec fn dto_ok(
    d: SoundEventDto,
    ev: SpecSoundEvent,
    table: Option<Seq<(Seq<char>, Seq<char>)>>,
    disabled: Seq<Seq<char>>,
    has_file: bool,
) -> bool {
    &&& d.internal_name@ == ev.name
    &&& d.display_name@ == spec_get_in(table, event_key(ev, "name"@))
    &&& d.description@ == spec_get_in(table, event_key(ev, "desc"@))
    &&& d.disabled == disabled.contains(ev.name)
    &&& d.has_file == has_file
    &&& match d.file_name {
        Some(f) => has_file && f@ == ev.name + ".wav"@,
        None => !has_file,
    }
}

fn event_key_exec(ev: &SoundEvent, suffix: &str) -> (r: String)
    ensures
        r@ == event_key(ev@, suffix@),
{
    let mut r = "event_".to_owned();
    let l = lowercase(ev.internal_name);
    r.append(l.as_str());
    r.append("_");
    r.append(suffix);
    r
}

/// The events as the user interface lists them, in table order, given the
/// settings, the text of the language file when it could be read, and for
/// each event whether its file exists in the media folder.
pub fn sound_event_dtos(settings: &Settings, language_file: Option<&str>, has_file: &Vec<bool>) -> (r: Vec<SoundEventDto>)
    requires
        has_file.len() == event_table().len(),
    ensures
        r.len() == event_table().len(),
        forall|i: int| 0 <= i < r.len() ==> dto_ok(
            #[trigger] r@[i],
            event_table()[i],
            file_table(opt_str_view(language_file)),
            settings@.disabled_sound_events,
            has_file@[i],
        ),
{
    let entries = file_entries(language_file);
    let t = match &entries {
        Some(e) => Some(e),
        None => None,
    };
    let events = all_events();
    let mut out: Vec<SoundEventDto> = Vec::new();
    let mut i: usize = 0;
    while i < events.len()
        invariant
            events_view(events@) == event_table(),
            has_file.len() == events.len(),
            i <= events.len(),
            out.len() == i,
            crate::domain::translation::opt_table_view(entries) == file_table(opt_str_view(language_file)),
            t == match &entries {
                Some(e) => Some(e),
                None => None,
            },
            forall|j: int| 0 <= j < i ==> dto_ok(
                #[trigger] out@[j],
                event_table()[j],
                file_table(opt_str_view(language_file)),
                settings@.disabled_sound_events,
                has_file@[j],
            ),
        decreases events.len() - i,
    {
        let ev = &events[i];
        assert(ev@ == event_table()[i as int]);
        let name_key = event_key_exec(ev, "name");
        let desc_key = event_key_exec(ev, "desc");
        let present = has_file[i];
        let d = SoundEventDto {
            internal_name: ev.internal_name.to_owned(),
            display_name: translate(t, name_key.as_str()),
            description: translate(t, desc_key.as_str()),
            disabled: settings.is_event_disabled(ev.internal_name),
            has_file: present,
            file_name: if present { Some(ev.file_name()) } else { None },
        };
        out.push(d);
        i = i + 1;
    }
    out
}

/// A scheme as the user interface lists it.
pub fn scheme_dto(s: &SchemeInfo) -> (r: SchemeDto)
    ensures
        r.internal_name@ == s.internal_name@,
        r.display_name@ == s.display_name@,
{
    SchemeDto { internal_name: s.internal_name.clone(), display_name: s.display_name.clone() }
}

/// The patching flags for this Windows version.
pub fn patching_flags(v: &WindowsVersionInfo, is_admin: bool) -> (r: PatchingFlags)
    ensures
        r.possible == spec_is_at_least(v@, 6, 0),
        r.required == ((v.major == 6 && v.minor == 0) || (v.major == 6 && v.minor == 1)),
        r.not_recommended == spec_is_at_least(v@, 10, 0),
        r.is_admin == is_admin,
{
    PatchingFlags {
        possible: is_patching_possible(v),
        required: is_patching_required(v),
        not_recommended: is_patching_not_recommended(v),
        is_admin,
    }
}

/// Whether updating an event's sound also patches the startup sound: the
/// event is `Startup`, patching is enabled in the settings, possible on this
/// version, and the user is an administrator.
pub fn patch_on_update(event_type: Option<EventType>, settings: &Settings, v: &WindowsVersionInfo, is_admin: bool) -> (r: bool)
    ensures
        r == (event_type == Some(EventType::Startup) && settings.patch_startup_sound && spec_is_at_least(v@, 6, 0)
            && is_admin),
{
    let startup = match event_type {
        Some(EventType::Startup) => true,
        _ => false,
    };
    startup && settings.patch_startup_sound && is_patching_possible(v) && is_admin
}

/// Where a proprietary archive is converted before import: next to it with
/// the `.ths` extension when the settings keep converted files, else
/// `soundmanager-converted.ths` in the temporary folder.
pub fn converted_archive_path(path: &str, keep_converted: bool, temp_dir: &str) -> (r: String)
    ensures
        r@ == if keep_converted {
            spec_with_extension(path@, "ths"@)
        } else {
            join_path(temp_dir@, "soundmanager-converted.ths"@)
        },
{
    if keep_converted {
        with_extension(path, "ths")
    } else {
        join_path_exec(temp_dir, "soundmanager-converted.ths")
    }
}

/// What setting up the scheme manager does besides writing the scheme.
#[derive(Debug)]
pub struct SetupPlan {
    /// Reset the metadata to its defaults.
    pub reset_meta: bool,
    /// Then name the scheme after the active one.
    pub rename_meta_to: Option<String>,
    /// Copy each event's sound from this scheme (`None`: `.Default`).
    pub copy_sounds: bool,
    pub copy_source: Option<String>,
}

/// The plan of `setup_scheme_manager`: on a forced reset, reset the metadata
/// and name it after the active scheme unless that is `.Default`; copy the
/// sounds of the active scheme on a forced reset or when the media folder
/// does not exist yet.
pub fn setup_plan(force_reset: bool, active: Option<&SchemeInfo>, media_dir_exists: bool) -> (r: SetupPlan)
    ensures
        r.reset_meta == force_reset,
        match r.rename_meta_to {
            Some(n) => force_reset && (active matches Some(a) && a.internal_name@ != ".Default"@ && n@ == a.display_name@),
            None => !force_reset || active is None || active->0.internal_name@ == ".Default"@,
        },
        r.copy_sounds == (force_reset || !media_dir_exists),
        match r.copy_source {
            Some(s) => active matches Some(a) && s@ == a.internal_name@,
            None => active is None,
        },
{
    let rename = match active {
        Some(a) => if force_reset && !crate::text::str_eq(a.internal_name.as_str(), ".Default") {
            Some(a.display_name.clone())
        } else {
            None
        },
        None => None,
    };
    proof {
        reveal_strlit(".Default");
    }
    SetupPlan {
        reset_meta: force_reset,
        rename_meta_to: rename,
        copy_sounds: force_reset || !media_dir_exists,
        copy_source: match active {
            Some(a) => Some(a.internal_name.clone()),
            None => None,
        },
    }
}

} // verus!
