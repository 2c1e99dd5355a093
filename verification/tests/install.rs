use taskbar_ip::install::{
    all_users_startup_path, first_install_plan, FirstInstallPlan, installed_as_admin, is_running_from_install_location,
    local_install_dir, normalize_path, program_data_dir, quoted, run_key_registrations,
    shared_install_dir, uninstall_registry_values, user_startup_path, RegistryData,
};

#[test]
fn paths() {
    assert_eq!(program_data_dir(None), "C:\\ProgramData");
    assert_eq!(program_data_dir(Some("D:\\PD".to_string())), "D:\\PD");
    assert_eq!(shared_install_dir("C:\\ProgramData"), "C:\\ProgramData\\TaskbarIP");
    assert_eq!(
        all_users_startup_path("C:\\ProgramData"),
        "C:\\ProgramData\\Microsoft\\Windows\\Start Menu\\Programs\\StartUp\\taskbar-ip.exe"
    );
    assert_eq!(
        user_startup_path(Some("C:\\Users\\a\\AppData\\Roaming".to_string())).unwrap(),
        "C:\\Users\\a\\AppData\\Roaming\\Microsoft\\Windows\\Start Menu\\Programs\\Startup\\taskbar-ip.exe"
    );
    assert_eq!(user_startup_path(None), None);
    assert_eq!(
        local_install_dir(Some("C:\\Users\\a\\AppData\\Local".to_string())).unwrap(),
        "C:\\Users\\a\\AppData\\Local\\TaskbarIP"
    );
    assert_eq!(local_install_dir(None), None);
    assert_eq!(quoted("C:\\x y\\a.exe"), "\"C:\\x y\\a.exe\"");
}

#[test]
fn normalized_paths() {
    let n: String = normalize_path("C:/ProgramData/TaskbarIP/Taskbar-IP.EXE").into_iter().collect();
    assert_eq!(n, "c:\\programdata\\taskbarip\\taskbar-ip.exe");
}

#[test]
fn install_locations() {
    let pd = "C:\\ProgramData";
    let local = Some("C:\\Users\\a\\AppData\\Local".to_string());
    let roaming = Some("C:\\Users\\a\\AppData\\Roaming".to_string());
    let check = |exe: &str| is_running_from_install_location(exe, pd, &local, &roaming);
    assert!(check("c:\\programdata\\taskbarip\\taskbar-ip.exe"));
    assert!(check("C:/ProgramData/Microsoft/Windows/Start Menu/Programs/StartUp/taskbar-ip.exe"));
    assert!(check("C:\\Users\\a\\AppData\\Local\\TaskbarIP\\taskbar-ip.exe"));
    assert!(check(
        "C:\\Users\\a\\AppData\\Roaming\\Microsoft\\Windows\\Start Menu\\Programs\\Startup\\taskbar-ip.exe"
    ));
    assert!(!check("C:\\Users\\a\\Desktop\\taskbar-ip.exe"));
    assert!(!check("\\\\10.0.135.252\\share\\taskbar-ip.exe"));
    // Without the directory separator the shared location does not match.
    assert!(!check("C:\\ProgramData\\TaskbarIPOther\\taskbar-ip.exe"));
    assert!(!is_running_from_install_location(
        "C:\\Users\\a\\AppData\\Local\\TaskbarIP\\taskbar-ip.exe",
        pd,
        &None,
        &None
    ));
}

#[test]
fn registrations() {
    assert!(installed_as_admin("C:\\PROGRAMDATA\\TaskbarIP\\taskbar-ip.exe", "C:\\ProgramData\\TaskbarIP", true));
    assert!(!installed_as_admin("C:\\ProgramData\\TaskbarIP\\taskbar-ip.exe", "C:\\ProgramData\\TaskbarIP", false));
    assert!(!installed_as_admin("C:\\Users\\a\\TaskbarIP\\taskbar-ip.exe", "C:\\ProgramData\\TaskbarIP", true));
    assert_eq!(run_key_registrations(true), vec![true]);
    assert_eq!(run_key_registrations(false), vec![false, false]);
}

#[test]
fn uninstall_entry() {
    let v = uninstall_registry_values("C:\\T\\taskbar-ip.exe", "C:\\T\\uninstall.exe", "C:\\T", "1.2.4");
    let names: Vec<&str> = v.iter().map(|r| r.name.as_str()).collect();
    assert_eq!(
        names,
        vec![
            "DisplayName",
            "DisplayVersion",
            "Publisher",
            "UninstallString",
            "QuietUninstallString",
            "DisplayIcon",
            "InstallLocation",
            "NoModify",
            "NoRepair",
            "EstimatedSize"
        ]
    );
    match &v[3].data {
        RegistryData::Text(t) => assert_eq!(t, "\"C:\\T\\uninstall.exe\""),
        _ => panic!("text expected"),
    }
    match &v[1].data {
        RegistryData::Text(t) => assert_eq!(t, "1.2.4"),
        _ => panic!("text expected"),
    }
    match &v[9].data {
        RegistryData::Number(n) => assert_eq!(*n, 1024),
        _ => panic!("number expected"),
    }
}

#[test]
fn first_install_plans() {
    let appdata = Some("C:\\Users\\a\\AppData\\Roaming".to_string());
    match first_install_plan("C:\\ProgramData", true, true, appdata.clone()) {
        FirstInstallPlan::Shared { exe, machine_wide, all_users_startup_copy, stale_user_startup } => {
            assert_eq!(exe, "C:\\ProgramData\\TaskbarIP\\taskbar-ip.exe");
            assert!(machine_wide);
            assert_eq!(
                all_users_startup_copy.unwrap(),
                "C:\\ProgramData\\Microsoft\\Windows\\Start Menu\\Programs\\StartUp\\taskbar-ip.exe"
            );
            assert_eq!(
                stale_user_startup.unwrap(),
                "C:\\Users\\a\\AppData\\Roaming\\Microsoft\\Windows\\Start Menu\\Programs\\Startup\\taskbar-ip.exe"
            );
        }
        _ => panic!("expected the shared installation"),
    }
    match first_install_plan("C:\\ProgramData", false, true, None) {
        FirstInstallPlan::Shared { machine_wide, all_users_startup_copy, stale_user_startup, .. } => {
            assert!(!machine_wide);
            assert!(all_users_startup_copy.is_none());
            assert!(stale_user_startup.is_none());
        }
        _ => panic!("expected the shared installation"),
    }
    match first_install_plan("C:\\ProgramData", true, false, appdata) {
        FirstInstallPlan::UserStartup { exe } => assert_eq!(
            exe,
            "C:\\Users\\a\\AppData\\Roaming\\Microsoft\\Windows\\Start Menu\\Programs\\Startup\\taskbar-ip.exe"
        ),
        _ => panic!("expected the user Startup folder"),
    }
    assert!(matches!(first_install_plan("C:\\ProgramData", false, false, None), FirstInstallPlan::Nothing));
}
