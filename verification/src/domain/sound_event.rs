//! The table of system sound events handled by the application.
//! Internal names must stay stable: they name the files of sound archives,
//! the translation keys and the disabled-event settings.

use vstd::prelude::*;
use vstd::string::StringExecFns;
use crate::paths::{join_path, join_path_exec};

verus! {

/// Events that the application treats specially.
#[derive(Debug, Clone, Copy, PartialEq, Eq, Structural)]
pub enum EventType {
    Startup,
    Shutdown,
    Logon,
    Logoff,
    LoadScheme,
    Select,
}

/// One system sound event.
#[derive(Debug)]
pub struct SoundEvent {
    pub internal_name: &'static str,
    /// Registry subkeys relative to `AppEvents\Schemes\Apps`, e.g. `.Default\SystemStart`.
    pub registry_keys: Vec<&'static str>,
    /// Name used by the old (French XP) archive format, if any.
    pub legacy_file_name: Option<&'static str>,
    pub event_type: Option<EventType>,
}

/// Mathematical model of a `SoundEvent`.
pub struct SpecSoundEvent {
    pub name: Seq<char>,
    pub keys: Seq<Seq<char>>,
    pub legacy: Option<Seq<char>>,
    pub event_type: Option<EventType>,
}

pub open spec fn opt_view(o: Option<&'static str>) -> Option<Seq<char>> {
    match o {
        Some(s) => Some(s@),
        None => None,
    }
}

impl View for SoundEvent {
    type V = SpecSoundEvent;

    open spec fn view(&self) -> SpecSoundEvent {
        SpecSoundEvent {
            name: self.internal_name@,
            keys: self.registry_keys@.map_values(|k: &'static str| k@),
            legacy: opt_view(self.legacy_file_name),
            event_type: self.event_type,
        }
    }
}

pub open spec fn sev(
    name: Seq<char>,
    keys: Seq<Seq<char>>,
    legacy: Option<Seq<char>>,
    t: Option<EventType>,
) -> SpecSoundEvent {
    SpecSoundEvent { name, keys, legacy, event_type: t }
}

/// The event table, in display order.
pub open spec fn event_table() -> Seq<SpecSoundEvent> {
    seq![
        sev("Startup"@, seq![".Default\\SystemStart"@], Some("Démarrage"@), Some(EventType::Startup)),
        sev("Shutdown"@, seq![".Default\\SystemExit"@], Some("Arrêt du système"@), Some(EventType::Shutdown)),
        sev("Logon"@, seq![".Default\\WindowsLogon"@], Some("Ouverture de session"@), Some(EventType::Logon)),
        sev("Logoff"@, seq![".Default\\WindowsLogoff"@], Some("Fermeture de session"@), Some(EventType::Logoff)),
        sev("Information"@, seq![".Default\\SystemAsterisk"@], Some("Erreur"@), None),
        sev("Question"@, seq![".Default\\SystemQuestion"@], None, None),
        sev("Warning"@, seq![".Default\\SystemExclamation"@], Some("Exclamation"@), None),
        sev("Error"@, seq![".Default\\SystemHand"@], Some("Arrêt critique"@), None),
        sev("DeviceConnect"@, seq![".Default\\DeviceConnect"@], Some("Insertion d'un matériel"@), None),
        sev("DeviceDisconnect"@, seq![".Default\\DeviceDisconnect"@], Some("Suppression d'un matériel"@), None),
        sev("DeviceFail"@, seq![".Default\\DeviceFail"@], Some("Échec d'un matériel"@), None),
        sev("Default"@, seq![".Default\\.Default"@], Some("Ding"@), None),
        sev("Balloon"@, seq![".Default\\SystemNotification"@, ".Default\\Notification.Default"@, "Explorer\\SystemNotification"@], Some("Infobulle"@), None),
        sev("Navigate"@, seq!["Explorer\\Navigating"@], Some("Menu Démarrer"@), None),
        sev("RecycleBin"@, seq!["Explorer\\EmptyRecycleBin"@], Some("Corbeille"@), None),
        sev("UAC"@, seq![".Default\\WindowsUAC"@], None, None),
        sev("BatteryLow"@, seq![".Default\\LowBatteryAlarm"@], None, None),
        sev("BatteryCritical"@, seq![".Default\\CriticalBatteryAlarm"@], None, None),
        sev("Email"@, seq![".Default\\MailBeep"@, ".Default\\Notification.Mail"@], None, None),
        sev("Reminder"@, seq![".Default\\Notification.Reminder"@], None, None),
        sev("Print"@, seq![".Default\\PrintComplete"@], None, None),
        sev("AppOpen"@, seq![".Default\\Open"@], None, None),
        sev("AppClose"@, seq![".Default\\Close"@], None, None),
        sev("Minimize"@, seq![".Default\\Minimize"@], None, None),
        sev("UnMinimize"@, seq![".Default\\RestoreUp"@], None, None),
        sev("Maximize"@, seq![".Default\\Maximize"@], None, None),
        sev("UnMaximize"@, seq![".Default\\RestoreDown"@], None, None),
        sev("Menu"@, seq![".Default\\MenuPopup"@], None, None),
        sev("MenuCommand"@, seq![".Default\\MenuCommand"@], None, None),
        sev("Select"@, seq![".Default\\CCSelect"@], None, Some(EventType::Select)),
        sev("LoadScheme"@, seq![".Default\\ChangeTheme"@], None, Some(EventType::LoadScheme)),
        sev("Unlock"@, seq![".Default\\WindowsUnlock"@], None, None),
    ]
}

pub open spec fn event_names() -> Seq<Seq<char>> {
    event_table().map_values(|e: SpecSoundEvent| e.name)
}

fn ev1(
    name: &'static str,
    k1: &'static str,
    legacy: Option<&'static str>,
    t: Option<EventType>,
) -> (e: SoundEvent)
    ensures
        e@ == sev(name@, seq![k1@], opt_view(legacy), t),
{
    let e = SoundEvent {
        internal_name: name,
        registry_keys: vec![k1],
        legacy_file_name: legacy,
        event_type: t,
    };
    assert(e@.keys =~= seq![k1@]);
    e
}

fn ev2(
    name: &'static str,
    k1: &'static str,
    k2: &'static str,
    legacy: Option<&'static str>,
    t: Option<EventType>,
) -> (e: SoundEvent)
    ensures
        e@ == sev(name@, seq![k1@, k2@], opt_view(legacy), t),
{
    let e = SoundEvent {
        internal_name: name,
        registry_keys: vec![k1, k2],
        legacy_file_name: legacy,
        event_type: t,
    };
    assert(e@.keys =~= seq![k1@, k2@]);
    e
}

fn ev3(
    name: &'static str,
    k1: &'static str,
    k2: &'static str,
    k3: &'static str,
    legacy: Option<&'static str>,
    t: Option<EventType>,
) -> (e: SoundEvent)
    ensures
        e@ == sev(name@, seq![k1@, k2@, k3@], opt_view(legacy), t),
{
    let e = SoundEvent {
        internal_name: name,
        registry_keys: vec![k1, k2, k3],
        legacy_file_name: legacy,
        event_type: t,
    };
    assert(e@.keys =~= seq![k1@, k2@, k3@]);
    e
}

pub open spec fn events_view(v: Seq<SoundEvent>) -> Seq<SpecSoundEvent> {
    v.map_values(|e: SoundEvent| e@)
}

/// All events, in the order of `event_table`.
pub fn all_events() -> (r: Vec<SoundEvent>)
    ensures
        events_view(r@) == event_table(),
{
    let mut v: Vec<SoundEvent> = Vec::new();
    v.push(ev1("Startup", ".Default\\SystemStart", Some("Démarrage"), Some(EventType::Startup)));
    v.push(ev1("Shutdown", ".Default\\SystemExit", Some("Arrêt du système"), Some(EventType::Shutdown)));
    v.push(ev1("Logon", ".Default\\WindowsLogon", Some("Ouverture de session"), Some(EventType::Logon)));
    v.push(ev1("Logoff", ".Default\\WindowsLogoff", Some("Fermeture de session"), Some(EventType::Logoff)));
    v.push(ev1("Information", ".Default\\SystemAsterisk", Some("Erreur"), None));
    v.push(ev1("Question", ".Default\\SystemQuestion", None, None));
    v.push(ev1("Warning", ".Default\\SystemExclamation", Some("Exclamation"), None));
    v.push(ev1("Error", ".Default\\SystemHand", Some("Arrêt critique"), None));
    v.push(ev1("DeviceConnect", ".Default\\DeviceConnect", Some("Insertion d'un matériel"), None));
    v.push(ev1("DeviceDisconnect", ".Default\\DeviceDisconnect", Some("Suppression d'un matériel"), None));
    v.push(ev1("DeviceFail", ".Default\\DeviceFail", Some("Échec d'un matériel"), None));
    v.push(ev1("Default", ".Default\\.Default", Some("Ding"), None));
    v.push(ev3("Balloon", ".Default\\SystemNotification", ".Default\\Notification.Default", "Explorer\\SystemNotification", Some("Infobulle"), None));
    v.push(ev1("Navigate", "Explorer\\Navigating", Some("Menu Démarrer"), None));
    v.push(ev1("RecycleBin", "Explorer\\EmptyRecycleBin", Some("Corbeille"), None));
    v.push(ev1("UAC", ".Default\\WindowsUAC", None, None));
    v.push(ev1("BatteryLow", ".Default\\LowBatteryAlarm", None, None));
    v.push(ev1("BatteryCritical", ".Default\\CriticalBatteryAlarm", None, None));
    v.push(ev2("Email", ".Default\\MailBeep", ".Default\\Notification.Mail", None, None));
    v.push(ev1("Reminder", ".Default\\Notification.Reminder", None, None));
    v.push(ev1("Print", ".Default\\PrintComplete", None, None));
    v.push(ev1("AppOpen", ".Default\\Open", None, None));
    v.push(ev1("AppClose", ".Default\\Close", None, None));
    v.push(ev1("Minimize", ".Default\\Minimize", None, None));
    v.push(ev1("UnMinimize", ".Default\\RestoreUp", None, None));
    v.push(ev1("Maximize", ".Default\\Maximize", None, None));
    v.push(ev1("UnMaximize", ".Default\\RestoreDown", None, None));
    v.push(ev1("Menu", ".Default\\MenuPopup", None, None));
    v.push(ev1("MenuCommand", ".Default\\MenuCommand", None, None));
    v.push(ev1("Select", ".Default\\CCSelect", None, Some(EventType::Select)));
    v.push(ev1("LoadScheme", ".Default\\ChangeTheme", None, Some(EventType::LoadScheme)));
    v.push(ev1("Unlock", ".Default\\WindowsUnlock", None, None));
    assert(events_view(v@) =~= event_table());
    v
}

} // verus!

verus! {

/// Index in `event_table` of the event of type `t`.
pub open spec fn type_index(t: EventType) -> int {
    match t {
        EventType::Startup => 0,
        EventType::Shutdown => 1,
        EventType::Logon => 2,
        EventType::Logoff => 3,
        EventType::Select => 29,
        EventType::LoadScheme => 30,
    }
}

/// A number that tells the names of the table apart: length and three characters.
pub open spec fn name_signature(s: Seq<char>) -> int {
    s.len() * 16777216 + (s[0] as int) * 65536 + (s[1] as int) * 256 + (if s.len() > 3 { s[3] as int } else { 0 })
}

pub open spec fn signature_table() -> Seq<int> {
    seq![122909810, 139683956, 88895343, 105672559, 189361775, 139556211, 123167086, 88437359, 222586217, 272917865, 172254569, 121922913, 121790828, 139354473, 173172089, 55918848, 172122484, 256008564, 88436073, 139617641, 89158254, 121729103, 138506307, 139290985, 173370985, 139288937, 173370977, 72181109, 189621621, 106128741, 172781412, 106262127]
}

proof fn lemma_signatures()
    ensures
        forall|i: int| 0 <= i < 32 ==> name_signature(#[trigger] event_table()[i].name) == signature_table()[i],
{
    assert forall|i: int| 0 <= i < 32 implies name_signature(#[trigger] event_table()[i].name) == signature_table()[i] by {
        if i == 0 {
            reveal_strlit("Startup");
            assert(event_table()[i].name == "Startup"@);
        } else if i == 1 {
            reveal_strlit("Shutdown");
            assert(event_table()[i].name == "Shutdown"@);
        } else if i == 2 {
            reveal_strlit("Logon");
            assert(event_table()[i].name == "Logon"@);
        } else if i == 3 {
            reveal_strlit("Logoff");
            assert(event_table()[i].name == "Logoff"@);
        } else if i == 4 {
            reveal_strlit("Information");
            assert(event_table()[i].name == "Information"@);
        } else if i == 5 {
            reveal_strlit("Question");
            assert(event_table()[i].name == "Question"@);
        } else if i == 6 {
            reveal_strlit("Warning");
            assert(event_table()[i].name == "Warning"@);
        } else if i == 7 {
            reveal_strlit("Error");
            assert(event_table()[i].name == "Error"@);
        } else if i == 8 {
            reveal_strlit("DeviceConnect");
            assert(event_table()[i].name == "DeviceConnect"@);
        } else if i == 9 {
            reveal_strlit("DeviceDisconnect");
            assert(event_table()[i].name == "DeviceDisconnect"@);
        } else if i == 10 {
            reveal_strlit("DeviceFail");
            assert(event_table()[i].name == "DeviceFail"@);
        } else if i == 11 {
            reveal_strlit("Default");
            assert(event_table()[i].name == "Default"@);
        } else if i == 12 {
            reveal_strlit("Balloon");
            assert(event_table()[i].name == "Balloon"@);
        } else if i == 13 {
            reveal_strlit("Navigate");
            assert(event_table()[i].name == "Navigate"@);
        } else if i == 14 {
            reveal_strlit("RecycleBin");
            assert(event_table()[i].name == "RecycleBin"@);
        } else if i == 15 {
            reveal_strlit("UAC");
            assert(event_table()[i].name == "UAC"@);
        } else if i == 16 {
            reveal_strlit("BatteryLow");
            assert(event_table()[i].name == "BatteryLow"@);
        } else if i == 17 {
            reveal_strlit("BatteryCritical");
            assert(event_table()[i].name == "BatteryCritical"@);
        } else if i == 18 {
            reveal_strlit("Email");
            assert(event_table()[i].name == "Email"@);
        } else if i == 19 {
            reveal_strlit("Reminder");
            assert(event_table()[i].name == "Reminder"@);
        } else if i == 20 {
            reveal_strlit("Print");
            assert(event_table()[i].name == "Print"@);
        } else if i == 21 {
            reveal_strlit("AppOpen");
            assert(event_table()[i].name == "AppOpen"@);
        } else if i == 22 {
            reveal_strlit("AppClose");
            assert(event_table()[i].name == "AppClose"@);
        } else if i == 23 {
            reveal_strlit("Minimize");
            assert(event_table()[i].name == "Minimize"@);
        } else if i == 24 {
            reveal_strlit("UnMinimize");
            assert(event_table()[i].name == "UnMinimize"@);
        } else if i == 25 {
            reveal_strlit("Maximize");
            assert(event_table()[i].name == "Maximize"@);
        } else if i == 26 {
            reveal_strlit("UnMaximize");
            assert(event_table()[i].name == "UnMaximize"@);
        } else if i == 27 {
            reveal_strlit("Menu");
            assert(event_table()[i].name == "Menu"@);
        } else if i == 28 {
            reveal_strlit("MenuCommand");
            assert(event_table()[i].name == "MenuCommand"@);
        } else if i == 29 {
            reveal_strlit("Select");
            assert(event_table()[i].name == "Select"@);
        } else if i == 30 {
            reveal_strlit("LoadScheme");
            assert(event_table()[i].name == "LoadScheme"@);
        } else if i == 31 {
            reveal_strlit("Unlock");
            assert(event_table()[i].name == "Unlock"@);
        }
    }
}

/// No two events share an internal name.
pub proof fn law_event_names_unique()
    ensures
        event_table().len() == 32,
        forall|i: int, j: int|
            0 <= i < event_table().len() && 0 <= j < event_table().len() && i != j
                ==> event_table()[i].name != event_table()[j].name,
{
    lemma_signatures();
    assert forall|i: int, j: int|
        0 <= i < event_table().len() && 0 <= j < event_table().len() && i != j
            implies event_table()[i].name != event_table()[j].name by {
        assert(signature_table()[i] != signature_table()[j]);
    }
}

/// Every special event type belongs to exactly one event, the one at `type_index`.
pub proof fn law_event_types_unique()
    ensures
        forall|t: EventType| 0 <= #[trigger] type_index(t) < event_table().len() && event_table()[type_index(t)].event_type == Some(t),
        forall|t: EventType, i: int|
            #![trigger event_table()[i].event_type, type_index(t)]
            0 <= i < event_table().len() && event_table()[i].event_type == Some(t) ==> i == type_index(t),
{
}

/// Looks up an event by its internal name.
pub fn event_by_name(name: &str) -> (r: Option<SoundEvent>)
    ensures
        r is Some <==> event_names().contains(name@),
        r matches Some(e) ==> e@.name == name@ && event_table().contains(e@),
{
    let mut v = all_events();
    let mut i: usize = 0;
    while i < v.len()
        invariant
            events_view(v@) == event_table(),
            i <= v.len(),
            forall|j: int| 0 <= j < i ==> event_table()[j].name != name@,
        decreases v.len() - i,
    {
        assert(v@[i as int]@ == event_table()[i as int]);
        if crate::text::str_eq(v[i].internal_name, name) {
            let e = v.remove(i);
            assert(event_table()[i as int] == e@);
            assert(event_names()[i as int] == name@);
            return Some(e);
        }
        i = i + 1;
    }
    proof {
        assert forall|j: int| 0 <= j < event_names().len() implies event_names()[j] != name@ by {
            assert(v@[j]@ == event_table()[j]);
        }
    }
    None
}

/// The event of the given special type.
pub fn event_by_type(t: EventType) -> (r: SoundEvent)
    ensures
        r@ == event_table()[type_index(t)],
{
    let mut v = all_events();
    let i: usize = match t {
        EventType::Startup => 0,
        EventType::Shutdown => 1,
        EventType::Logon => 2,
        EventType::Logoff => 3,
        EventType::Select => 29,
        EventType::LoadScheme => 30,
    };
    assert(events_view(v@).len() == v@.len());
    assert(event_table().len() == 32);
    assert(events_view(v@)[i as int] == v@[i as int]@);
    v.remove(i)
}

} // verus!

verus! {

impl SoundEvent {
    /// Canonical wav file name inside the media folder, e.g. `Startup.wav`.
    pub fn file_name(&self) -> (r: String)
        ensures
            r@ == self.internal_name@ + ".wav"@,
    {
        let mut r = self.internal_name.to_owned();
        r.append(".wav");
        r
    }

    /// Full path of the event's file inside `media_dir`.
    pub fn file_path(&self, media_dir: &str) -> (r: String)
        ensures
            r@ == join_path(media_dir@, self.internal_name@ + ".wav"@),
    {
        let name = self.file_name();
        join_path_exec(media_dir, name.as_str())
    }

    /// File name used by the old archive format: `Windows XP <legacy name>.wav`
    /// (with an empty legacy name when the event has none).
    pub fn legacy_name(&self) -> (r: String)
        ensures
            r@ == "Windows XP "@ + (match self.legacy_file_name {
                Some(l) => l@,
                None => ""@,
            }) + ".wav"@,
    {
        let fr = match self.legacy_file_name {
            Some(l) => l,
            None => "",
        };
        let mut r = "Windows XP ".to_owned();
        r.append(fr);
        r.append(".wav");
        r
    }
}

} // verus!

verus! {

/// `%APPDATA%\SoundManager\Media` for the given value of `APPDATA`
/// (the current folder `.` when it is unset).
pub open spec fn spec_media_dir(appdata: Option<Seq<char>>) -> Seq<char> {
    let base = match appdata {
        Some(a) => a,
        None => "."@,
    };
    join_path(join_path(base, "SoundManager"@), "Media"@)
}

/// Default media folder: `%APPDATA%\SoundManager\Media`, given the value of
/// the `APPDATA` environment variable.
pub fn default_media_dir(appdata: Option<&str>) -> (r: String)
    ensures
        r@ == spec_media_dir(match appdata {
            Some(a) => Some(a@),
            None => None,
        }),
{
    let base = match appdata {
        Some(a) => a,
        None => ".",
    };
    let app = join_path_exec(base, "SoundManager");
    join_path_exec(app.as_str(), "Media")
}

} // verus!

verus! {

pub open spec fn is_letter(c: char) -> bool {
    ('a' <= c <= 'z') || ('A' <= c <= 'Z')
}

pub open spec fn all_letters(s: Seq<char>) -> bool {
    forall|j: int| 0 <= j < s.len() ==> is_letter(#[trigger] s[j])
}

/// Every internal name is a non-empty run of ASCII letters.
pub proof fn lemma_event_names_letters()
    ensures
        forall|i: int| 0 <= i < event_table().len() ==> (#[trigger] event_table()[i].name).len() > 0 && all_letters(event_table()[i].name),
{
    assert forall|i: int| 0 <= i < event_table().len() implies (#[trigger] event_table()[i].name).len() > 0 && all_letters(event_table()[i].name) by {
        if i == 0 {
            reveal_strlit("Startup");
            assert(event_table()[i].name == "Startup"@);
        } else if i == 1 {
            reveal_strlit("Shutdown");
            assert(event_table()[i].name == "Shutdown"@);
        } else if i == 2 {
            reveal_strlit("Logon");
            assert(event_table()[i].name == "Logon"@);
        } else if i == 3 {
            reveal_strlit("Logoff");
            assert(event_table()[i].name == "Logoff"@);
        } else if i == 4 {
            reveal_strlit("Information");
            assert(event_table()[i].name == "Information"@);
        } else if i == 5 {
            reveal_strlit("Question");
            assert(event_table()[i].name == "Question"@);
        } else if i == 6 {
            reveal_strlit("Warning");
            assert(event_table()[i].name == "Warning"@);
        } else if i == 7 {
            reveal_strlit("Error");
            assert(event_table()[i].name == "Error"@);
        } else if i == 8 {
            reveal_strlit("DeviceConnect");
            assert(event_table()[i].name == "DeviceConnect"@);
        } else if i == 9 {
            reveal_strlit("DeviceDisconnect");
            assert(event_table()[i].name == "DeviceDisconnect"@);
        } else if i == 10 {
            reveal_strlit("DeviceFail");
            assert(event_table()[i].name == "DeviceFail"@);
        } else if i == 11 {
            reveal_strlit("Default");
            assert(event_table()[i].name == "Default"@);
        } else if i == 12 {
            reveal_strlit("Balloon");
            assert(event_table()[i].name == "Balloon"@);
        } else if i == 13 {
            reveal_strlit("Navigate");
            assert(event_table()[i].name == "Navigate"@);
        } else if i == 14 {
            reveal_strlit("RecycleBin");
            assert(event_table()[i].name == "RecycleBin"@);
        } else if i == 15 {
            reveal_strlit("UAC");
            assert(event_table()[i].name == "UAC"@);
        } else if i == 16 {
            reveal_strlit("BatteryLow");
            assert(event_table()[i].name == "BatteryLow"@);
        } else if i == 17 {
            reveal_strlit("BatteryCritical");
            assert(event_table()[i].name == "BatteryCritical"@);
        } else if i == 18 {
            reveal_strlit("Email");
            assert(event_table()[i].name == "Email"@);
        } else if i == 19 {
            reveal_strlit("Reminder");
            assert(event_table()[i].name == "Reminder"@);
        } else if i == 20 {
            reveal_strlit("Print");
            assert(event_table()[i].name == "Print"@);
        } else if i == 21 {
            reveal_strlit("AppOpen");
            assert(event_table()[i].name == "AppOpen"@);
        } else if i == 22 {
            reveal_strlit("AppClose");
            assert(event_table()[i].name == "AppClose"@);
        } else if i == 23 {
            reveal_strlit("Minimize");
            assert(event_table()[i].name == "Minimize"@);
        } else if i == 24 {
            reveal_strlit("UnMinimize");
            assert(event_table()[i].name == "UnMinimize"@);
        } else if i == 25 {
            reveal_strlit("Maximize");
            assert(event_table()[i].name == "Maximize"@);
        } else if i == 26 {
            reveal_strlit("UnMaximize");
            assert(event_table()[i].name == "UnMaximize"@);
        } else if i == 27 {
            reveal_strlit("Menu");
            assert(event_table()[i].name == "Menu"@);
        } else if i == 28 {
            reveal_strlit("MenuCommand");
            assert(event_table()[i].name == "MenuCommand"@);
        } else if i == 29 {
            reveal_strlit("Select");
            assert(event_table()[i].name == "Select"@);
        } else if i == 30 {
            reveal_strlit("LoadScheme");
            assert(event_table()[i].name == "LoadScheme"@);
        } else if i == 31 {
            reveal_strlit("Unlock");
            assert(event_table()[i].name == "Unlock"@);
        }
    }
}

} // verus!
