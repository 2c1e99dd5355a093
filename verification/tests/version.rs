use taskbar_ip::version::{
    current_version_tuple, parse_smb_filename_version, parse_version, update_is_newer,
    CURRENT_VERSION,
};

#[test]
fn parses_release_versions() {
    assert_eq!(parse_version("v1.2.3"), Some((1, 2, 3)));
    assert_eq!(parse_version("1.2.3"), Some((1, 2, 3)));
    assert_eq!(parse_version("v1.2"), None);
    assert_eq!(parse_version("v1.2.3-beta"), None);
}

#[test]
fn accepts_only_newer_versions() {
    let (major, minor, patch) = parse_version(CURRENT_VERSION).unwrap();
    assert!(update_is_newer(&format!("v{}.{}.{}", major, minor, patch + 1)));
    assert!(update_is_newer(&format!("v{}.{}.0", major, minor + 1)));
    assert!(!update_is_newer(CURRENT_VERSION));
    assert!(!update_is_newer(&format!("v{}.{}.{}", major, minor, patch.saturating_sub(1))));
}

#[test]
fn parses_smb_setup_filenames() {
    let parse = parse_smb_filename_version;
    assert_eq!(parse("TaskbarIP_Setup_v1.2.4.exe"), Some((1, 2, 4, 0)));
    assert_eq!(parse("TaskbarIP_Setup_v1.2.4.0.exe"), Some((1, 2, 4, 0)));
    assert_eq!(parse("taskbarip-setup-v10.0.135.exe"), Some((10, 0, 135, 0)));
    assert_eq!(parse("setup.exe"), None);
    assert_eq!(parse("TaskbarIP_Setup_final.exe"), None);
    assert_eq!(parse("notes_v1.txt"), None);
}

#[test]
fn version_parsing_edge_cases() {
    assert_eq!(parse_version("vv1.2.3"), Some((1, 2, 3)));
    assert_eq!(parse_version("+1.2.3"), Some((1, 2, 3)));
    assert_eq!(parse_version("1..3"), None);
    assert_eq!(parse_version(""), None);
    assert_eq!(parse_version("1.2.3."), None);
    assert_eq!(parse_version("1.2.4294967295"), Some((1, 2, 4294967295)));
    assert_eq!(parse_version("1.2.4294967296"), None);
    assert_eq!(parse_version("V1.2.3"), None);
    assert_eq!(parse_version("1.-2.3"), None);
    assert_eq!(parse_version("007.08.9"), Some((7, 8, 9)));
}

#[test]
fn current_version_is_1_2_4() {
    assert_eq!(CURRENT_VERSION, "1.2.4");
    assert_eq!(current_version_tuple(), (1, 2, 4, 0));
    assert!(update_is_newer("v2.0.0"));
    assert!(!update_is_newer("v1.2.4"));
    assert!(!update_is_newer("garbage"));
}

#[test]
fn smb_filename_edge_cases() {
    let parse = parse_smb_filename_version;
    // Upper-case marker: the name is compared in lower case.
    assert_eq!(parse("TASKBARIP_SETUP_V2.0.1.EXE"), Some((2, 0, 1, 0)));
    // The last marker wins.
    assert_eq!(parse("a_v9.9.9_v1.2.3.exe"), Some((1, 2, 3, 0)));
    // A build number that does not fit counts as zero.
    assert_eq!(parse("x_v1.2.3.99999999999.exe"), Some((1, 2, 3, 0)));
    // A major version that does not fit rejects the name.
    assert_eq!(parse("x_v99999999999.2.3.exe"), None);
    assert_eq!(parse("x_v1.2.3.4.exe"), Some((1, 2, 3, 4)));
    assert_eq!(parse("x-v1.2.exe"), None);
}
