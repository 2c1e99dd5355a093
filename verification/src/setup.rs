//! Decisions of the installer, the uninstaller and the start-up hand-off.

use vstd::prelude::*;
use crate::encoding::{
    encode_utf16, lemma_before_nul_of_wide, before_nul_or_all, before_nul_or_empty, prefix_before_nul_or_all, prefix_before_nul_or_empty,
    spec_to_uppercase, spec_utf16_lossy, to_uppercase, utf16_lossy,
};
use crate::install::{
    all_users_startup_copy, shared_app_path, shared_uninstaller_path, user_startup_copy,
    all_users_startup_path, app_exe_in, concat, opt_view, shared_install_dir, uninstaller_in,
    user_startup_path, ALL_USERS_STARTUP_DIR, APP_EXE_NAME, INSTALL_DIR_NAME, UNINSTALLER_EXE_NAME,
    USER_STARTUP_DIR,
};
use crate::text::{
    chars_eq, chars_eq_ignore_ascii_case, chars_of, eq_ignoring_ascii_case, string_from_chars,
};

verus! {

/// An embedded binary smaller than this is a build placeholder.
pub const MIN_PAYLOAD_BYTES: usize = 4096;

/// `REG_SZ`.
pub const REG_SZ: u32 = 1;

/// Whether both embedded application binaries are real builds.
pub fn setup_payloads_present(x86_len: usize, x64_len: usize) -> (r: bool)
    ensures
        r == (x86_len >= MIN_PAYLOAD_BYTES && x64_len >= MIN_PAYLOAD_BYTES),
{
    !(x86_len < MIN_PAYLOAD_BYTES || x64_len < MIN_PAYLOAD_BYTES)
}

/// A 64-bit Windows: a 32-bit process sees `PROCESSOR_ARCHITEW6432`, and a
/// native one an upper-cased `PROCESSOR_ARCHITECTURE` of AMD64, IA64 or
/// ARM64.
pub open spec fn spec_is_64bit_os(wow64_set: bool, architecture: Option<Seq<char>>) -> bool {
    wow64_set || match architecture {
        Some(a) => {
            let u = spec_to_uppercase(a);
            u == "AMD64"@ || u == "IA64"@ || u == "ARM64"@
        },
        None => false,
    }
}

/// Whether the OS is 64-bit, from the two architecture variables.
pub fn is_64bit_os(wow64_set: bool, processor_architecture: Option<String>) -> (r: bool)
    ensures
        r == spec_is_64bit_os(wow64_set, opt_view(processor_architecture)),
{
    if wow64_set {
        return true;
    }
    match processor_architecture {
        Some(arch) => {
            let upper = to_uppercase(arch.as_str());
            let u = chars_of(upper.as_str());
            let amd64 = chars_of("AMD64");
            let ia64 = chars_of("IA64");
            let arm64 = chars_of("ARM64");
            chars_eq(u.as_slice(), amd64.as_slice()) || chars_eq(u.as_slice(), ia64.as_slice())
                || chars_eq(u.as_slice(), arm64.as_slice())
        },
        None => false,
    }
}

/// Where the installer puts the binaries.
pub enum SetupTarget {
    /// The shared directory below `%ProgramData%`.
    Shared { exe: String, uninstaller: String },
    /// The per-user directory, which must be created first.
    PerUser { dir: String, exe: String, uninstaller: String },
    /// No usable location.
    Failed,
}

/// The shared directory when it could be created, else the per-user
/// directory when `%LOCALAPPDATA%` is set, else nothing.
pub fn setup_target(program_data: &str, shared_dir_created: bool, local_app_data: Option<String>) -> (t: SetupTarget)
    ensures
        shared_dir_created ==> (t matches SetupTarget::Shared { exe, uninstaller } && exe@
            == shared_app_path(program_data@) && uninstaller@ == shared_uninstaller_path(
            program_data@,
        )),
        !shared_dir_created && local_app_data is Some ==> (t matches SetupTarget::PerUser {
            dir,
            exe,
            uninstaller,
        } && dir@ == local_app_data->0@ + INSTALL_DIR_NAME@ && exe@ == dir@ + APP_EXE_NAME@
            && uninstaller@ == dir@ + UNINSTALLER_EXE_NAME@),
        !shared_dir_created && local_app_data is None ==> t is Failed,
{
    if shared_dir_created {
        let dir = shared_install_dir(program_data);
        SetupTarget::Shared { exe: app_exe_in(dir.as_str()), uninstaller: uninstaller_in(dir.as_str()) }
    } else {
        match local_app_data {
            Some(local) => {
                let dir = concat(local.as_str(), INSTALL_DIR_NAME);
                let exe = app_exe_in(dir.as_str());
                let uninstaller = uninstaller_in(dir.as_str());
                SetupTarget::PerUser { dir, exe, uninstaller }
            },
            None => SetupTarget::Failed,
        }
    }
}

/// The message shown after a successful installation.
pub open spec fn spec_setup_success_message(is_64: bool) -> Seq<char> {
    "TaskbarIP installed successfully ("@ + (if is_64 {
        "64-bit"@
    } else {
        "32-bit"@
    }) + ").\n\nThe IP address will now appear in your taskbar.\nIt will start automatically on login."@
}

/// The message shown after a successful installation.
pub fn setup_success_message(is_64: bool) -> (s: String)
    ensures
        s@ == spec_setup_success_message(is_64),
{
    let arch = if is_64 {
        "64-bit"
    } else {
        "32-bit"
    };
    let head = concat("TaskbarIP installed successfully (", arch);
    concat(
        head.as_str(),
        ").\n\nThe IP address will now appear in your taskbar.\nIt will start automatically on login.",
    )
}

/// What the uninstaller removes.
pub struct UninstallPlan {
    /// Files in the shared directory, removed before the directory.
    pub shared_files: Vec<String>,
    /// The shared directory, removed once empty.
    pub shared_dir: String,
    /// Startup-folder copies.
    pub startup_files: Vec<String>,
}

/// The view of a list of strings.
pub open spec fn string_views(v: Seq<String>) -> Seq<Seq<char>> {
    v.map_values(|s: String| s@)
}

/// Every file the uninstaller deletes, in order: both binaries in the shared
/// directory, the all-users Startup copy and, when `%APPDATA%` is set, the
/// user's Startup copy.
pub open spec fn spec_uninstalled_files(program_data: Seq<char>, app_data: Option<Seq<char>>) -> Seq<Seq<char>> {
    seq![
        shared_app_path(program_data),
        shared_uninstaller_path(program_data),
        all_users_startup_copy(program_data),
    ] + match app_data {
        Some(a) => seq![user_startup_copy(a)],
        None => Seq::empty(),
    }
}

/// Everything the uninstaller deletes: the files of
/// `spec_uninstalled_files` (the shared ones first, then the Startup copies)
/// and the shared directory, once it is empty.
pub fn uninstall_plan(program_data: &str, app_data: Option<String>) -> (p: UninstallPlan)
    ensures
        p.shared_dir@ == program_data@ + INSTALL_DIR_NAME@,
        p.shared_files@.len() == 2,
        string_views(p.shared_files@) + string_views(p.startup_files@) == spec_uninstalled_files(
            program_data@,
            opt_view(app_data),
        ),
{
    let shared_dir = shared_install_dir(program_data);
    let mut shared_files: Vec<String> = Vec::new();
    shared_files.push(app_exe_in(shared_dir.as_str()));
    shared_files.push(uninstaller_in(shared_dir.as_str()));
    let mut startup_files: Vec<String> = Vec::new();
    startup_files.push(all_users_startup_path(program_data));
    match user_startup_path(app_data) {
        Some(p) => startup_files.push(p),
        None => {},
    }
    assert(string_views(shared_files@) + string_views(startup_files@) =~= spec_uninstalled_files(
        program_data@,
        opt_view(app_data),
    ));
    UninstallPlan { shared_files, shared_dir, startup_files }
}

/// Law: the uninstaller deletes every file that an installation into the
/// shared directory creates: the application and uninstaller that the setup
/// program writes there, the copy in the all-users Startup folder made by an
/// elevated first run, and the copy in the user's Startup folder made when
/// the shared directory was not writable.
pub proof fn lemma_uninstall_removes_installed_files(program_data: Seq<char>, app_data: Option<Seq<char>>)
    ensures
        spec_uninstalled_files(program_data, app_data).contains(shared_app_path(program_data)),
        spec_uninstalled_files(program_data, app_data).contains(shared_uninstaller_path(program_data)),
        spec_uninstalled_files(program_data, app_data).contains(all_users_startup_copy(program_data)),
        app_data matches Some(a) ==> spec_uninstalled_files(program_data, app_data).contains(
            user_startup_copy(a),
        ),
{
    let f = spec_uninstalled_files(program_data, app_data);
    assert(f[0] == shared_app_path(program_data));
    assert(f[1] == shared_uninstaller_path(program_data));
    assert(f[2] == all_users_startup_copy(program_data));
    if let Some(a) = app_data {
        assert(f[3] == user_startup_copy(a));
    }
}

/// Whether a process snapshot entry's `szExeFile` names `name`, ignoring
/// ASCII case. The file name is the text before its first NUL (none at all
/// if it has no NUL).
pub fn process_name_matches(exe_file: &[u16], name: &str) -> (r: bool)
    ensures
        r == eq_ignoring_ascii_case(spec_utf16_lossy(before_nul_or_empty(exe_file@)), name@),
{
    let units = prefix_before_nul_or_empty(exe_file);
    let exe_name = utf16_lossy(units.as_slice());
    let a = chars_of(exe_name.as_str());
    let b = chars_of(name);
    chars_eq_ignore_ascii_case(a.as_slice(), b.as_slice())
}

/// A registered `DisplayVersion` is read only when it is a string of 2 to
/// 512 bytes.
pub fn display_version_value_acceptable(kind: u32, byte_len: u32) -> (r: bool)
    ensures
        r == (kind == REG_SZ && 2 <= byte_len <= 512),
{
    kind == REG_SZ && byte_len >= 2 && byte_len <= 512
}

/// The registered version text: the code units before the first NUL (all of
/// them when there is none), decoded. A value written as a NUL-terminated
/// UTF-16 string (`to_wide`) of a text without NUL reads back as that text.
pub fn registered_version_text(units: &[u16]) -> (s: String)
    ensures
        s@ == spec_utf16_lossy(before_nul_or_all(units@)),
        forall|v: Seq<char>|
            #![trigger encode_utf16(v)]
            units@ == encode_utf16(v).push(0u16) && !v.contains('\0') ==> s@ == v,
{
    let u = prefix_before_nul_or_all(units);
    let r = utf16_lossy(u.as_slice());
    assert forall|v: Seq<char>|
        #![trigger encode_utf16(v)]
        units@ == encode_utf16(v).push(0u16) && !v.contains('\0') implies r@ == v by {
        lemma_before_nul_of_wide(v);
    }
    r
}

/// Preview builds (`TASKBAR_IP_PREVIEW=1`) neither install nor update.
pub fn is_preview_mode(env_value: Option<String>) -> (r: bool)
    ensures
        r == (env_value matches Some(v) && v@ == "1"@),
{
    match env_value {
        Some(v) => {
            let c = chars_of(v.as_str());
            let one = chars_of("1");
            chars_eq(c.as_slice(), one.as_slice())
        },
        None => false,
    }
}

/// Whether reading `available` more bytes after `received` would exceed
/// `max_bytes` (the sum saturating at `usize::MAX`).
pub fn response_exceeds_limit(received: usize, available: u32, max_bytes: usize) -> (r: bool)
    ensures
        r == (received + available > max_bytes),
{
    let avail = available as usize;
    if received > usize::MAX - avail {
        true
    } else {
        received + avail > max_bytes
    }
}

} // verus!
