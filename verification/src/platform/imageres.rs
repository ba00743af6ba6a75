//! Startup sound patching of `System32\imageres.dll`: file locations,
//! capability flags and the checks made before each file operation. The file
//! operations and the Win32 resource calls are made by the caller.

use vstd::prelude::*;
use crate::errors::{CoreError, CoreResult};
use crate::paths::{join_path, join_path_exec};
use crate::platform::version::{WindowsVersionInfo, SpecVersion, spec_is_at_least, is_at_least_vista, is_at_least_10, is_vista, is_7};

verus! {

broadcast use vstd::string::group_string_axioms;

/// Language of the WAVE resource (en-US).
pub const WAVE_LOCALE: u16 = 1033;

pub open spec fn spec_windows_dir(system_root: Option<Seq<char>>) -> Seq<char> {
    match system_root {
        Some(r) => r,
        None => "C:\\Windows"@,
    }
}

pub open spec fn spec_system32(system_root: Option<Seq<char>>) -> Seq<char> {
    join_path(spec_windows_dir(system_root), "System32"@)
}

pub open spec fn opt_view(o: Option<&str>) -> Option<Seq<char>> {
    match o {
        Some(s) => Some(s@),
        None => None,
    }
}

/// `%SystemRoot%\System32`, `C:\Windows\System32` when `SystemRoot` is unset.
pub fn system32_dir(system_root: Option<&str>) -> (r: String)
    ensures
        r@ == spec_system32(opt_view(system_root)),
{
    let root = match system_root {
        Some(r) => r,
        None => "C:\\Windows",
    };
    join_path_exec(root, "System32")
}

pub fn imageres_path(system_root: Option<&str>) -> (r: String)
    ensures
        r@ == join_path(spec_system32(opt_view(system_root)), "imageres.dll"@),
{
    let d = system32_dir(system_root);
    join_path_exec(d.as_str(), "imageres.dll")
}

/// The backup of the unpatched DLL, `imageres.dll.bak`.
pub fn imageres_bak_path(system_root: Option<&str>) -> (r: String)
    ensures
        r@ == join_path(spec_system32(opt_view(system_root)), "imageres.dll.bak"@),
{
    let d = system32_dir(system_root);
    join_path_exec(d.as_str(), "imageres.dll.bak")
}

/// Where the DLL in use is moved aside, `imageres.dll.old`.
pub fn imageres_old_path(system_root: Option<&str>) -> (r: String)
    ensures
        r@ == join_path(spec_system32(opt_view(system_root)), "imageres.dll.old"@),
{
    let d = system32_dir(system_root);
    join_path_exec(d.as_str(), "imageres.dll.old")
}

/// Id of the startup WAVE resource: 5051 on Vista, 5080 from Windows 7 on.
pub fn wave_resource_number(v: &WindowsVersionInfo) -> (r: u32)
    ensures
        r == if v.major == 6 && v.minor == 0 { 5051u32 } else { 5080u32 },
{
    if is_vista(v) {
        5051
    } else {
        5080
    }
}

/// Patching needs Vista or later.
pub fn is_patching_possible(v: &WindowsVersionInfo) -> (r: bool)
    ensures
        r == spec_is_at_least(v@, 6, 0),
{
    is_at_least_vista(v)
}

/// On Vista and 7 the startup sound can only be changed by patching.
pub fn is_patching_required(v: &WindowsVersionInfo) -> (r: bool)
    ensures
        r == ((v.major == 6 && v.minor == 0) || (v.major == 6 && v.minor == 1)),
{
    is_vista(v) || is_7(v)
}

/// Not recommended from Windows 10 on.
pub fn is_patching_not_recommended(v: &WindowsVersionInfo) -> (r: bool)
    ensures
        r == spec_is_at_least(v@, 10, 0),
{
    is_at_least_10(v)
}

pub open spec fn not_possible_msg() -> Seq<char> {
    "not possible on this Windows version"@
}

pub open spec fn not_found_msg() -> Seq<char> {
    "imageres.dll not found"@
}

pub open spec fn admin_msg() -> Seq<char> {
    "admin required to patch imageres.dll"@
}

/// Patching needs administrator rights.
pub fn require_admin(is_admin: bool) -> (r: CoreResult<()>)
    ensures
        is_admin ==> r is Ok,
        !is_admin ==> (r matches Err(CoreError::Permission(m)) && m@ == admin_msg()),
{
    if is_admin {
        Ok(())
    } else {
        Err(CoreError::Permission("admin required to patch imageres.dll".to_owned()))
    }
}

/// The empty-but-valid WAV written when the startup sound is removed.
pub open spec fn spec_empty_wav() -> Seq<u8> {
    seq![
        0x52u8, 0x49, 0x46, 0x46, 0x3e, 0x00, 0x00, 0x00, 0x57, 0x41, 0x56, 0x45, 0x66, 0x6d, 0x74, 0x20,
        0x12, 0x00, 0x00, 0x00, 0x01, 0x00, 0x02, 0x00, 0x44, 0xac, 0x00, 0x00, 0x10, 0xb1, 0x02, 0x00,
        0x04, 0x00, 0x10, 0x00, 0x00, 0x00, 0x66, 0x61, 0x63, 0x74, 0x04, 0x00, 0x00, 0x00, 0x00, 0x00,
        0x00, 0x00, 0x64, 0x61, 0x74, 0x61, 0x00, 0x00, 0x00, 0x00, 0x4c, 0x49, 0x53, 0x54, 0x04, 0x00,
        0x00, 0x00, 0x49, 0x4e, 0x46, 0x4f,
    ]
}

pub fn empty_wav() -> (r: Vec<u8>)
    ensures
        r@ == spec_empty_wav(),
{
    let r = vec![
        0x52u8, 0x49, 0x46, 0x46, 0x3e, 0x00, 0x00, 0x00, 0x57, 0x41, 0x56, 0x45, 0x66, 0x6d, 0x74, 0x20,
        0x12, 0x00, 0x00, 0x00, 0x01, 0x00, 0x02, 0x00, 0x44, 0xac, 0x00, 0x00, 0x10, 0xb1, 0x02, 0x00,
        0x04, 0x00, 0x10, 0x00, 0x00, 0x00, 0x66, 0x61, 0x63, 0x74, 0x04, 0x00, 0x00, 0x00, 0x00, 0x00,
        0x00, 0x00, 0x64, 0x61, 0x74, 0x61, 0x00, 0x00, 0x00, 0x00, 0x4c, 0x49, 0x53, 0x54, 0x04, 0x00,
        0x00, 0x00, 0x49, 0x4e, 0x46, 0x4f,
    ];
    assert(r@ =~= spec_empty_wav());
    r
}

/// What `backup` does once its checks pass.
#[derive(Debug, Clone, Copy, PartialEq, Eq, Structural)]
pub enum BackupAction {
    /// A backup exists: only grant access to it.
    GrantExistingBackup,
    /// Grant access to System32 and the DLL, move the DLL to `.bak`, copy it back.
    CreateBackup,
}

/// Checks made by `backup`, in order: patching possible, DLL present,
/// administrator rights; then whether a backup already exists.
pub fn backup_check(v: &WindowsVersionInfo, imageres_is_file: bool, is_admin: bool, bak_is_file: bool) -> (r: CoreResult<BackupAction>)
    ensures
        !spec_is_at_least(v@, 6, 0) ==> (r matches Err(CoreError::Patching(m)) && m@ == not_possible_msg()),
        spec_is_at_least(v@, 6, 0) && !imageres_is_file ==> (r matches Err(CoreError::Patching(m)) && m@ == not_found_msg()),
        spec_is_at_least(v@, 6, 0) && imageres_is_file && !is_admin ==> (r matches Err(CoreError::Permission(m)) && m@ == admin_msg()),
        spec_is_at_least(v@, 6, 0) && imageres_is_file && is_admin ==> r == Ok::<BackupAction, CoreError>(
            if bak_is_file { BackupAction::GrantExistingBackup } else { BackupAction::CreateBackup },
        ),
{
    if !is_patching_possible(v) {
        return Err(CoreError::Patching("not possible on this Windows version".to_owned()));
    }
    if !imageres_is_file {
        return Err(CoreError::Patching("imageres.dll not found".to_owned()));
    }
    require_admin(is_admin)?;
    if bak_is_file {
        Ok(BackupAction::GrantExistingBackup)
    } else {
        Ok(BackupAction::CreateBackup)
    }
}

/// Checks made by `restore`: patching possible; then `Ok(false)` when there is
/// no backup to restore, else administrator rights and `Ok(true)`.
pub fn restore_check(v: &WindowsVersionInfo, bak_is_file: bool, is_admin: bool) -> (r: CoreResult<bool>)
    ensures
        !spec_is_at_least(v@, 6, 0) ==> (r matches Err(CoreError::Patching(m)) && m@ == not_possible_msg()),
        spec_is_at_least(v@, 6, 0) && !bak_is_file ==> r == Ok::<bool, CoreError>(false),
        spec_is_at_least(v@, 6, 0) && bak_is_file && !is_admin ==> (r matches Err(CoreError::Permission(m)) && m@ == admin_msg()),
        spec_is_at_least(v@, 6, 0) && bak_is_file && is_admin ==> r == Ok::<bool, CoreError>(true),
{
    if !is_patching_possible(v) {
        return Err(CoreError::Patching("not possible on this Windows version".to_owned()));
    }
    if !bak_is_file {
        return Ok(false);
    }
    require_admin(is_admin)?;
    Ok(true)
}

/// What `patch` does once its checks pass.
pub struct PatchPlan {
    /// Make the backup first (none exists yet).
    pub backup_first: bool,
    /// Write the replacement file's bytes; otherwise the empty WAV.
    pub use_replacement: bool,
}

/// Checks made by `patch`: patching possible, the DLL or its backup present,
/// administrator rights.
pub fn patch_check(
    v: &WindowsVersionInfo,
    imageres_is_file: bool,
    bak_is_file: bool,
    is_admin: bool,
    replacement_is_file: bool,
) -> (r: CoreResult<PatchPlan>)
    ensures
        !spec_is_at_least(v@, 6, 0) ==> (r matches Err(CoreError::Patching(m)) && m@ == not_possible_msg()),
        spec_is_at_least(v@, 6, 0) && !imageres_is_file && !bak_is_file ==> (r matches Err(CoreError::Patching(m)) && m@ == not_found_msg()),
        spec_is_at_least(v@, 6, 0) && (imageres_is_file || bak_is_file) && !is_admin ==> (r matches Err(CoreError::Permission(m)) && m@ == admin_msg()),
        spec_is_at_least(v@, 6, 0) && (imageres_is_file || bak_is_file) && is_admin ==> (r matches Ok(p) && p.backup_first == !bak_is_file && p.use_replacement == replacement_is_file),
{
    if !is_patching_possible(v) {
        return Err(CoreError::Patching("not possible on this Windows version".to_owned()));
    }
    if !imageres_is_file && !bak_is_file {
        return Err(CoreError::Patching("imageres.dll not found".to_owned()));
    }
    require_admin(is_admin)?;
    Ok(PatchPlan { backup_first: !bak_is_file, use_replacement: replacement_is_file })
}

/// Where `extract_default` reads the stock startup sound.
pub struct ExtractSource {
    pub dll_path: String,
    pub resource_id: u32,
    pub locale: u16,
}

/// The source of the stock startup sound: the backup when it exists, else the
/// DLL itself; errors when patching is impossible or the file is missing.
pub fn extract_default(
    v: &WindowsVersionInfo,
    system_root: Option<&str>,
    bak_is_file: bool,
    imageres_is_file: bool,
) -> (r: CoreResult<ExtractSource>)
    ensures
        !spec_is_at_least(v@, 6, 0) ==> (r matches Err(CoreError::Patching(m)) && m@ == not_possible_msg()),
        spec_is_at_least(v@, 6, 0) && !bak_is_file && !imageres_is_file ==> (r matches Err(CoreError::Patching(m)) && m@ == not_found_msg()),
        spec_is_at_least(v@, 6, 0) && (bak_is_file || imageres_is_file) ==> (r matches Ok(s) && s.dll_path@ == join_path(
            spec_system32(opt_view(system_root)),
            if bak_is_file { "imageres.dll.bak"@ } else { "imageres.dll"@ },
        ) && s.resource_id == (if v.major == 6 && v.minor == 0 { 5051u32 } else { 5080u32 }) && s.locale == 1033),
{
    if !is_patching_possible(v) {
        return Err(CoreError::Patching("not possible on this Windows version".to_owned()));
    }
    let source = if bak_is_file {
        imageres_bak_path(system_root)
    } else {
        imageres_path(system_root)
    };
    if !(bak_is_file || imageres_is_file) {
        return Err(CoreError::Patching("imageres.dll not found".to_owned()));
    }
    Ok(ExtractSource { dll_path: source, resource_id: wave_resource_number(v), locale: WAVE_LOCALE })
}

} // verus!
