//! Whether Windows plays its startup sound: a DWORD flag under
//! `HKLM\SOFTWARE\Microsoft\Windows\CurrentVersion` (writing it needs
//! administrator rights). The registry calls are made by the caller.

use vstd::prelude::*;
use crate::platform::version::{WindowsVersionInfo, SpecVersion, is_11, is_at_least_vista, spec_is_at_least};

verus! {

pub const BOOT_ANIM_KEY: &'static str = "SOFTWARE\\Microsoft\\Windows\\CurrentVersion\\Authentication\\LogonUI\\BootAnimation";
pub const EDITION_OVERRIDES_KEY: &'static str = "SOFTWARE\\Microsoft\\Windows\\CurrentVersion\\EditionOverrides";

/// The key and the value name of the flag: under `EditionOverrides` as
/// `UserSetting_DisableStartupSound` on Windows 11, else under
/// `BootAnimation` as `DisableStartupSound`.
pub open spec fn spec_flag_location(v: SpecVersion) -> (Seq<char>, Seq<char>) {
    if v.build >= 22000 {
        (EDITION_OVERRIDES_KEY@, "UserSetting_DisableStartupSound"@)
    } else {
        (BOOT_ANIM_KEY@, "DisableStartupSound"@)
    }
}

/// Where the flag is stored on this version (see `spec_flag_location`).
pub fn flag_location(v: &WindowsVersionInfo) -> (r: (&'static str, &'static str))
    ensures
        (r.0@, r.1@) == spec_flag_location(v@),
{
    if is_11(v) {
        (EDITION_OVERRIDES_KEY, "UserSetting_DisableStartupSound")
    } else {
        (BOOT_ANIM_KEY, "DisableStartupSound")
    }
}

/// Versions on which the sound is off when the flag is absent: Windows 8 and
/// 8.1, and Windows 10 before build 22000.
pub open spec fn spec_disabled_by_default(v: SpecVersion) -> bool {
    (v.major == 6 && (v.minor == 2 || v.minor == 3)) || (v.major == 10 && v.build < 22000)
}

/// Whether the startup sound is enabled, given the flag's value when it
/// exists: enabled when the flag is 0; without the flag, unless the version
/// disables it by default.
pub open spec fn spec_get_enabled(v: SpecVersion, flag: Option<u32>) -> bool {
    match flag {
        Some(x) => x == 0,
        None => !spec_disabled_by_default(v),
    }
}

/// The flag written for `enabled`.
pub open spec fn flag_value(enabled: bool) -> u32 {
    if enabled { 0u32 } else { 1u32 }
}

/// Whether the startup sound is enabled (see `spec_get_enabled`).
pub fn get_enabled(v: &WindowsVersionInfo, flag: Option<u32>) -> (r: bool)
    ensures
        r == spec_get_enabled(v@, flag),
{
    match flag {
        Some(x) => x == 0,
        None => !((v.major == 6 && (v.minor == 2 || v.minor == 3)) || (v.major == 10 && v.build < 22000)),
    }
}

/// What to write to enable or disable the startup sound: the key, the value
/// name and the DWORD (0 enables, 1 disables); nothing before Vista.
pub fn set_enabled(v: &WindowsVersionInfo, enabled: bool) -> (r: Option<(&'static str, &'static str, u32)>)
    ensures
        match r {
            None => !spec_is_at_least(v@, 6, 0),
            Some((k, n, x)) => spec_is_at_least(v@, 6, 0) && (k@, n@) == spec_flag_location(v@)
                && x == flag_value(enabled),
        },
{
    if !is_at_least_vista(v) {
        return None;
    }
    let (k, n) = flag_location(v);
    Some((k, n, if enabled { 0 } else { 1 }))
}

/// Once the flag that `set_enabled` gives is written, reading it back gives
/// the state that was set, on any version.
pub proof fn law_set_then_get(v: SpecVersion, enabled: bool)
    ensures
        spec_get_enabled(v, Some(flag_value(enabled))) == enabled,
{
}

/// Without the flag, the startup sound reads as off on Windows 8 (6.2) and
/// 8.1 (6.3) and on Windows 10 builds before 22000, and as on for Vista and
/// 7 (6.0, 6.1) and for builds from 22000 (Windows 11); with the flag, it is
/// on exactly when the flag is 0, on every version.
pub proof fn law_startup_sound_default_by_version(v: SpecVersion, x: u32)
    ensures
        v.major == 6 && (v.minor == 2 || v.minor == 3) ==> !spec_get_enabled(v, None),
        v.major == 10 && v.build < 22000 ==> !spec_get_enabled(v, None),
        v.major == 6 && v.minor <= 1 ==> spec_get_enabled(v, None),
        v.build >= 22000 && v.major != 6 ==> spec_get_enabled(v, None),
        spec_get_enabled(v, Some(x)) <==> x == 0,
{
}

} // verus!
