//! Install locations, autostart registration and the uninstall entry.

use vstd::prelude::*;
use crate::encoding::{spec_to_lowercase, to_lowercase};
use crate::text::{chars_of, extend_chars, has_prefix, starts_with, string_from_chars};

verus! {

/// Used when `%ProgramData%` is not set.
pub const DEFAULT_PROGRAM_DATA: &'static str = "C:\\ProgramData";

/// Directory name of the installation.
pub const INSTALL_DIR_NAME: &'static str = "\\TaskbarIP";

/// The application's file name.
pub const APP_EXE_NAME: &'static str = "\\taskbar-ip.exe";

/// The uninstaller's file name.
pub const UNINSTALLER_EXE_NAME: &'static str = "\\uninstall.exe";

/// The all-users Startup folder below `%ProgramData%`.
pub const ALL_USERS_STARTUP_DIR: &'static str = "\\Microsoft\\Windows\\Start Menu\\Programs\\StartUp";

/// The per-user Startup folder below `%APPDATA%`.
pub const USER_STARTUP_DIR: &'static str = "\\Microsoft\\Windows\\Start Menu\\Programs\\Startup";

/// A single backslash.
pub const BACKSLASH: &'static str = "\\";

/// `<program data>\TaskbarIP\taskbar-ip.exe`: the shared copy of the application.
pub open spec fn shared_app_path(program_data: Seq<char>) -> Seq<char> {
    program_data + INSTALL_DIR_NAME@ + APP_EXE_NAME@
}

/// `<program data>\TaskbarIP\uninstall.exe`: the shared uninstaller.
pub open spec fn shared_uninstaller_path(program_data: Seq<char>) -> Seq<char> {
    program_data + INSTALL_DIR_NAME@ + UNINSTALLER_EXE_NAME@
}

/// The application's copy in the all-users Startup folder.
pub open spec fn all_users_startup_copy(program_data: Seq<char>) -> Seq<char> {
    program_data + ALL_USERS_STARTUP_DIR@ + APP_EXE_NAME@
}

/// The application's copy in the Startup folder of the user whose
/// `%APPDATA%` is `app_data`.
pub open spec fn user_startup_copy(app_data: Seq<char>) -> Seq<char> {
    app_data + USER_STARTUP_DIR@ + APP_EXE_NAME@
}

/// Concatenation of two strings.
pub fn concat(a: &str, b: &str) -> (s: String)
    ensures
        s@ == a@ + b@,
{
    let mut out = chars_of(a);
    let bc = chars_of(b);
    extend_chars(&mut out, bc.as_slice());
    string_from_chars(out.as_slice())
}

/// `%ProgramData%`, or `C:\ProgramData` when it is not set.
pub fn program_data_dir(env_value: Option<String>) -> (s: String)
    ensures
        s@ == (match env_value {
            Some(v) => v@,
            None => DEFAULT_PROGRAM_DATA@,
        }),
{
    match env_value {
        Some(v) => v,
        None => String::from_str(DEFAULT_PROGRAM_DATA),
    }
}

/// `<program data>\TaskbarIP`: the shared installation directory.
pub fn shared_install_dir(program_data: &str) -> (s: String)
    ensures
        s@ == program_data@ + INSTALL_DIR_NAME@,
{
    concat(program_data, INSTALL_DIR_NAME)
}

/// `<dir>\taskbar-ip.exe`.
pub fn app_exe_in(dir: &str) -> (s: String)
    ensures
        s@ == dir@ + APP_EXE_NAME@,
{
    concat(dir, APP_EXE_NAME)
}

/// `<dir>\uninstall.exe`.
pub fn uninstaller_in(dir: &str) -> (s: String)
    ensures
        s@ == dir@ + UNINSTALLER_EXE_NAME@,
{
    concat(dir, UNINSTALLER_EXE_NAME)
}

/// `%LOCALAPPDATA%\TaskbarIP`, the per-user installation directory.
pub fn local_install_dir(local_app_data: Option<String>) -> (r: Option<String>)
    ensures
        match local_app_data {
            Some(l) => r matches Some(d) && d@ == l@ + INSTALL_DIR_NAME@,
            None => r is None,
        },
{
    match local_app_data {
        Some(l) => Some(concat(l.as_str(), INSTALL_DIR_NAME)),
        None => None,
    }
}

/// The copy in the all-users Startup folder.
pub fn all_users_startup_path(program_data: &str) -> (s: String)
    ensures
        s@ == program_data@ + ALL_USERS_STARTUP_DIR@ + APP_EXE_NAME@,
{
    let dir = concat(program_data, ALL_USERS_STARTUP_DIR);
    concat(dir.as_str(), APP_EXE_NAME)
}

/// The copy in the current user's Startup folder.
pub fn user_startup_path(app_data: Option<String>) -> (r: Option<String>)
    ensures
        match app_data {
            Some(a) => r matches Some(p) && p@ == a@ + USER_STARTUP_DIR@ + APP_EXE_NAME@,
            None => r is None,
        },
{
    match app_data {
        Some(a) => {
            let dir = concat(a.as_str(), USER_STARTUP_DIR);
            Some(concat(dir.as_str(), APP_EXE_NAME))
        },
        None => None,
    }
}

/// `s` with every `/` replaced by `\`.
pub open spec fn slashes_to_backslashes(s: Seq<char>) -> Seq<char> {
    Seq::new(s.len(), |i: int| if s[i] == '/' { '\\' } else { s[i] })
}

/// The comparison form of a path: lower case, backslashes only.
pub open spec fn spec_normalize_path(p: Seq<char>) -> Seq<char> {
    slashes_to_backslashes(spec_to_lowercase(p))
}

/// Normalize a path for comparison: lower case, `/` turned into `\`.
pub fn normalize_path(p: &str) -> (s: Vec<char>)
    ensures
        s@ == spec_normalize_path(p@),
{
    let lower = to_lowercase(p);
    let lc = chars_of(lower.as_str());
    let mut out: Vec<char> = Vec::new();
    let mut i: usize = 0;
    while i < lc.len()
        invariant
            i <= lc@.len(),
            out@ == slashes_to_backslashes(lc@).take(i as int),
        decreases lc@.len() - i,
    {
        let c = lc[i];
        out.push(if c == '/' { '\\' } else { c });
        assert(out@ =~= slashes_to_backslashes(lc@).take(i + 1));
        i = i + 1;
    }
    assert(slashes_to_backslashes(lc@).take(lc@.len() as int) =~= slashes_to_backslashes(lc@));
    out
}

fn normalized_starts_with(norm: &[char], dir: &str) -> (r: bool)
    ensures
        r == has_prefix(norm@, spec_normalize_path(dir@)),
{
    let d = normalize_path(dir);
    starts_with(norm, d.as_slice())
}

/// Whether `exe` lies in one of the installed locations: the shared
/// directory, the all-users Startup folder, the per-user directory or the
/// user's Startup folder (compared in normalized form).
pub open spec fn spec_is_installed_location(
    exe: Seq<char>,
    program_data: Seq<char>,
    local_app_data: Option<Seq<char>>,
    app_data: Option<Seq<char>>,
) -> bool {
    let norm = spec_normalize_path(exe);
    ||| has_prefix(norm, spec_normalize_path(program_data + INSTALL_DIR_NAME@ + BACKSLASH@))
    ||| has_prefix(norm, spec_normalize_path(program_data + ALL_USERS_STARTUP_DIR@ + BACKSLASH@))
    ||| (local_app_data matches Some(l) && has_prefix(
        norm,
        spec_normalize_path(l + INSTALL_DIR_NAME@ + BACKSLASH@),
    ))
    ||| (app_data matches Some(a) && has_prefix(norm, spec_normalize_path(a + USER_STARTUP_DIR@)))
}

/// The view of an optional string.
pub open spec fn opt_view(o: Option<String>) -> Option<Seq<char>> {
    match o {
        Some(s) => Some(s@),
        None => None,
    }
}

/// Whether the running executable is already an installed copy.
pub fn is_running_from_install_location(
    exe_path: &str,
    program_data: &str,
    local_app_data: &Option<String>,
    app_data: &Option<String>,
) -> (r: bool)
    ensures
        r == spec_is_installed_location(
            exe_path@,
            program_data@,
            opt_view(*local_app_data),
            opt_view(*app_data),
        ),
{
    let norm = normalize_path(exe_path);
    let shared = concat(shared_install_dir(program_data).as_str(), BACKSLASH);
    let startup_all = concat(concat(program_data, ALL_USERS_STARTUP_DIR).as_str(), BACKSLASH);
    if normalized_starts_with(norm.as_slice(), shared.as_str()) || normalized_starts_with(
        norm.as_slice(),
        startup_all.as_str(),
    ) {
        return true;
    }
    if let Some(l) = local_app_data {
        let local = concat(concat(l.as_str(), INSTALL_DIR_NAME).as_str(), BACKSLASH);
        if normalized_starts_with(norm.as_slice(), local.as_str()) {
            return true;
        }
    }
    if let Some(a) = app_data {
        let user_dir = concat(a.as_str(), USER_STARTUP_DIR);
        if normalized_starts_with(norm.as_slice(), user_dir.as_str()) {
            return true;
        }
    }
    false
}

/// An installed copy registers machine-wide only when elevated and running
/// from the shared directory.
pub fn installed_as_admin(exe_path: &str, shared_dir: &str, admin: bool) -> (r: bool)
    ensures
        r == (admin && has_prefix(spec_normalize_path(exe_path@), spec_normalize_path(shared_dir@))),
{
    if !admin {
        return false;
    }
    let norm = normalize_path(exe_path);
    normalized_starts_with(norm.as_slice(), shared_dir)
}

/// What a first installation does once the copy into the shared directory
/// has been attempted.
pub enum FirstInstallPlan {
    /// The shared copy is in place: register it (machine-wide when
    /// elevated), copy it into the all-users Startup folder when elevated,
    /// and remove an existing copy from the user's Startup folder.
    Shared {
        exe: String,
        machine_wide: bool,
        all_users_startup_copy: Option<String>,
        stale_user_startup: Option<String>,
    },
    /// The shared directory is not usable: copy into the user's Startup
    /// folder and register that copy for the user.
    UserStartup { exe: String },
    /// Nowhere to install.
    Nothing,
}

/// The plan of a first installation: the shared copy when it succeeded
/// (and is non-empty), otherwise the user's Startup folder when `%APPDATA%`
/// is set.
pub fn first_install_plan(program_data: &str, admin: bool, shared_copy_ok: bool, app_data: Option<String>) -> (p: FirstInstallPlan)
    ensures
        shared_copy_ok ==> (p matches FirstInstallPlan::Shared {
            exe,
            machine_wide,
            all_users_startup_copy: all_users,
            stale_user_startup: stale,
        } && exe@ == shared_app_path(program_data@) && machine_wide == admin && opt_view(all_users)
            == (if admin {
            Some(all_users_startup_copy(program_data@))
        } else {
            None
        }) && opt_view(stale) == (match app_data {
            Some(a) => Some(user_startup_copy(a@)),
            None => None,
        })),
        !shared_copy_ok && app_data is Some ==> (p matches FirstInstallPlan::UserStartup { exe }
            && exe@ == user_startup_copy(app_data->0@)),
        !shared_copy_ok && app_data is None ==> p is Nothing,
{
    if shared_copy_ok {
        let exe = app_exe_in(shared_install_dir(program_data).as_str());
        let all_users_startup_copy = if admin {
            Some(all_users_startup_path(program_data))
        } else {
            None
        };
        FirstInstallPlan::Shared {
            exe,
            machine_wide: admin,
            all_users_startup_copy,
            stale_user_startup: user_startup_path(app_data),
        }
    } else {
        match user_startup_path(app_data) {
            Some(exe) => FirstInstallPlan::UserStartup { exe },
            None => FirstInstallPlan::Nothing,
        }
    }
}

/// The Run-key registrations to write, in order, each `true` for the
/// machine hive and `false` for the user hive: the machine hive when
/// registering machine-wide, otherwise the user hive (written twice).
pub fn run_key_registrations(machine_wide: bool) -> (v: Vec<bool>)
    ensures
        machine_wide ==> v@ == seq![true],
        !machine_wide ==> v@ == seq![false, false],
{
    let mut v: Vec<bool> = Vec::new();
    v.push(machine_wide);
    if !machine_wide {
        v.push(false);
    }
    v
}

/// `"<path>"`: a path in double quotes, as Run and uninstall values hold it.
pub fn quoted(path: &str) -> (s: String)
    ensures
        s@ == "\""@ + path@ + "\""@,
{
    let q = chars_of("\"");
    let mut out = chars_of("\"");
    let pc = chars_of(path);
    extend_chars(&mut out, pc.as_slice());
    extend_chars(&mut out, q.as_slice());
    string_from_chars(out.as_slice())
}

/// The data of a registry value.
pub enum RegistryData {
    /// `REG_SZ`.
    Text(String),
    /// `REG_DWORD`.
    Number(u32),
}

/// The abstract data of a registry value.
pub enum RegistryDataView {
    Text(Seq<char>),
    Number(u32),
}

/// One registry value to write.
pub struct RegistryValue {
    pub name: String,
    pub data: RegistryData,
}

/// The abstract value of a list of registry values.
pub open spec fn registry_view(v: Seq<RegistryValue>) -> Seq<(Seq<char>, RegistryDataView)> {
    Seq::new(
        v.len(),
        |i: int|
            (v[i].name@, match v[i].data {
                RegistryData::Text(t) => RegistryDataView::Text(t@),
                RegistryData::Number(n) => RegistryDataView::Number(n),
            }),
    )
}

/// The values of the `Uninstall\TaskbarIP` key, in the order written.
pub open spec fn spec_uninstall_values(
    exe_path: Seq<char>,
    uninstaller_path: Seq<char>,
    install_dir: Seq<char>,
    display_version: Seq<char>,
) -> Seq<(Seq<char>, RegistryDataView)> {
    let uninstall = "\""@ + uninstaller_path + "\""@;
    seq![
        ("DisplayName"@, RegistryDataView::Text("TaskbarIP - Broj Racunara"@)),
        ("DisplayVersion"@, RegistryDataView::Text(display_version)),
        ("Publisher"@, RegistryDataView::Text("TaskbarIP"@)),
        ("UninstallString"@, RegistryDataView::Text(uninstall)),
        ("QuietUninstallString"@, RegistryDataView::Text(uninstall)),
        ("DisplayIcon"@, RegistryDataView::Text("\""@ + exe_path + "\""@)),
        ("InstallLocation"@, RegistryDataView::Text(install_dir)),
        ("NoModify"@, RegistryDataView::Number(1)),
        ("NoRepair"@, RegistryDataView::Number(1)),
        ("EstimatedSize"@, RegistryDataView::Number(1024)),
    ]
}

fn text_value(name: &str, value: &str) -> (v: RegistryValue)
    ensures
        v.name@ == name@,
        v.data matches RegistryData::Text(t) && t@ == value@,
{
    RegistryValue { name: String::from_str(name), data: RegistryData::Text(String::from_str(value)) }
}

fn number_value(name: &str, value: u32) -> (v: RegistryValue)
    ensures
        v.name@ == name@,
        v.data == RegistryData::Number(value),
{
    RegistryValue { name: String::from_str(name), data: RegistryData::Number(value) }
}

/// The Control Panel / Apps & Features entry for an installation.
pub fn uninstall_registry_values(
    exe_path: &str,
    uninstaller_path: &str,
    install_dir: &str,
    display_version: &str,
) -> (v: Vec<RegistryValue>)
    ensures
        registry_view(v@) == spec_uninstall_values(
            exe_path@,
            uninstaller_path@,
            install_dir@,
            display_version@,
        ),
{
    let uninstall = quoted(uninstaller_path);
    let icon = quoted(exe_path);
    let mut v: Vec<RegistryValue> = Vec::new();
    v.push(text_value("DisplayName", "TaskbarIP - Broj Racunara"));
    v.push(text_value("DisplayVersion", display_version));
    v.push(text_value("Publisher", "TaskbarIP"));
    v.push(text_value("UninstallString", uninstall.as_str()));
    v.push(text_value("QuietUninstallString", uninstall.as_str()));
    v.push(text_value("DisplayIcon", icon.as_str()));
    v.push(text_value("InstallLocation", install_dir));
    v.push(number_value("NoModify", 1));
    v.push(number_value("NoRepair", 1));
    v.push(number_value("EstimatedSize", 1024));
    let ghost want = spec_uninstall_values(
        exe_path@,
        uninstaller_path@,
        install_dir@,
        display_version@,
    );
    assert(registry_view(v@) =~= want);
    v
}

} // verus!
