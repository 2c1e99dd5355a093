use taskbar_ip::encoding::to_wide;
use taskbar_ip::setup::{
    display_version_value_acceptable, is_64bit_os, is_preview_mode, process_name_matches,
    registered_version_text, response_exceeds_limit, setup_payloads_present, setup_success_message,
    setup_target, uninstall_plan, SetupTarget,
};

fn wide(s: &str) -> Vec<u16> {
    s.encode_utf16().collect()
}

#[test]
fn architecture() {
    assert!(is_64bit_os(true, None));
    assert!(is_64bit_os(false, Some("amd64".to_string())));
    assert!(is_64bit_os(false, Some("ARM64".to_string())));
    assert!(is_64bit_os(false, Some("IA64".to_string())));
    assert!(!is_64bit_os(false, Some("x86".to_string())));
    assert!(!is_64bit_os(false, None));
}

#[test]
fn setup_locations() {
    assert!(setup_payloads_present(4096, 5000));
    assert!(!setup_payloads_present(11, 5000));
    match setup_target("C:\\ProgramData", true, None) {
        SetupTarget::Shared { exe, uninstaller } => {
            assert_eq!(exe, "C:\\ProgramData\\TaskbarIP\\taskbar-ip.exe");
            assert_eq!(uninstaller, "C:\\ProgramData\\TaskbarIP\\uninstall.exe");
        }
        _ => panic!("shared expected"),
    }
    match setup_target("C:\\ProgramData", false, Some("C:\\L".to_string())) {
        SetupTarget::PerUser { dir, exe, uninstaller } => {
            assert_eq!(dir, "C:\\L\\TaskbarIP");
            assert_eq!(exe, "C:\\L\\TaskbarIP\\taskbar-ip.exe");
            assert_eq!(uninstaller, "C:\\L\\TaskbarIP\\uninstall.exe");
        }
        _ => panic!("per-user expected"),
    }
    assert!(matches!(setup_target("C:\\ProgramData", false, None), SetupTarget::Failed));
    assert_eq!(
        setup_success_message(true),
        "TaskbarIP installed successfully (64-bit).\n\nThe IP address will now appear in your taskbar.\nIt will start automatically on login."
    );
}

#[test]
fn uninstall_targets() {
    let p = uninstall_plan("C:\\PD", Some("C:\\R".to_string()));
    assert_eq!(p.shared_dir, "C:\\PD\\TaskbarIP");
    assert_eq!(p.shared_files, vec!["C:\\PD\\TaskbarIP\\taskbar-ip.exe", "C:\\PD\\TaskbarIP\\uninstall.exe"]);
    assert_eq!(
        p.startup_files,
        vec![
            "C:\\PD\\Microsoft\\Windows\\Start Menu\\Programs\\StartUp\\taskbar-ip.exe",
            "C:\\R\\Microsoft\\Windows\\Start Menu\\Programs\\Startup\\taskbar-ip.exe"
        ]
    );
    assert_eq!(uninstall_plan("C:\\PD", None).startup_files.len(), 1);
}

#[test]
fn process_names() {
    let mut buf = wide("TASKBAR-IP.exe");
    buf.push(0);
    buf.extend(wide("junk"));
    assert!(process_name_matches(&buf, "taskbar-ip.exe"));
    assert!(!process_name_matches(&buf, "taskbar-ip"));
    // Without a terminating NUL the name is empty.
    assert!(!process_name_matches(&wide("taskbar-ip.exe"), "taskbar-ip.exe"));
    assert!(process_name_matches(&wide("taskbar-ip.exe"), ""));
}

#[test]
fn registered_versions() {
    assert!(display_version_value_acceptable(1, 2));
    assert!(display_version_value_acceptable(1, 512));
    assert!(!display_version_value_acceptable(1, 513));
    assert!(!display_version_value_acceptable(4, 10));
    let mut buf = wide("1.3.0");
    buf.push(0);
    assert_eq!(registered_version_text(&buf), "1.3.0");
    assert_eq!(registered_version_text(&wide("1.3.0")), "1.3.0");
}

#[test]
fn registered_version_reads_back_as_written() {
    for v in ["1.2.4", "v10.0.1", "1.2.4 \u{1F4BB} preview"] {
        assert_eq!(registered_version_text(&to_wide(v)), v);
    }
}

#[test]
fn preview_and_limits() {
    assert!(is_preview_mode(Some("1".to_string())));
    assert!(!is_preview_mode(Some("true".to_string())));
    assert!(!is_preview_mode(None));
    assert!(!response_exceeds_limit(10, 5, 15));
    assert!(response_exceeds_limit(10, 6, 15));
    assert!(response_exceeds_limit(usize::MAX, 1, usize::MAX));
}
