use taskbar_ip::digest::digest_matches;
use taskbar_ip::update::{
    first_update_step, installer_verified, release_check_from_metadata, release_download_verified,
    share_bytes_acceptable, share_file_size_allowed, share_release_tag, share_update_candidates,
    staged_installer_name, step_after_release_download, AssetMetadata, ExpectedInstaller,
    ReleaseCheck, ReleaseInfo, ReleaseMetadata, ShareEntry, UpdateStep,
};

const EMPTY_SHA256: &str =
    "sha256:e3b0c44298fc1c149afbf4c8996fb92427ae41e4649b934ca495991b7852b855";
const HELLO_WORLD_SHA256: &str =
    "sha256:b94d27b9934d3e08a52e52d7da7dabfac484efe37a5380ee9088f7ace2efcde9";

fn asset(name: &str, state: &str, url: &str, digest: &str, size: u64) -> AssetMetadata {
    AssetMetadata {
        name: Some(name.to_string()),
        state: Some(state.to_string()),
        browser_download_url: Some(url.to_string()),
        digest: Some(digest.to_string()),
        size: Some(size),
    }
}

const GOOD_URL: &str =
    "https://github.com/BobanAliBrz/BrojRacunaraAliBrz/releases/download/v1.3.0/setup.exe";

fn release(tag: Option<&str>, assets: Option<Vec<AssetMetadata>>) -> ReleaseMetadata {
    ReleaseMetadata { tag_name: tag.map(|t| t.to_string()), assets }
}

#[test]
fn sha256_labels() {
    assert!(digest_matches(b"", EMPTY_SHA256));
    assert!(digest_matches(b"hello world", HELLO_WORLD_SHA256));
    assert!(!digest_matches(b"hello world!", HELLO_WORLD_SHA256));
    assert!(!digest_matches(b"", &EMPTY_SHA256.to_uppercase()));
}

#[test]
fn newer_release_is_available() {
    let meta = release(
        Some("v1.3.0"),
        Some(vec![
            asset("notes.txt", "uploaded", GOOD_URL, HELLO_WORLD_SHA256, 5),
            asset("setup.exe", "uploaded", GOOD_URL, HELLO_WORLD_SHA256, 11),
        ]),
    );
    match release_check_from_metadata(&meta) {
        ReleaseCheck::Available(info) => {
            assert_eq!(info.tag, "v1.3.0");
            assert_eq!(
                info.path,
                "/BobanAliBrz/BrojRacunaraAliBrz/releases/download/v1.3.0/setup.exe"
            );
            assert_eq!(info.digest, HELLO_WORLD_SHA256);
            assert_eq!(info.size, 11);
            assert!(release_download_verified(b"hello world", &info));
            assert!(!release_download_verified(b"hello worl", &info));
        }
        _ => panic!("expected an available release"),
    }
}

#[test]
fn current_release_is_current() {
    let meta = release(Some("v1.2.4"), None);
    assert!(matches!(release_check_from_metadata(&meta), ReleaseCheck::Current));
    let meta = release(Some("1.0.0"), None);
    assert!(matches!(release_check_from_metadata(&meta), ReleaseCheck::Current));
    // An unparseable tag is never newer.
    let meta = release(Some("latest"), None);
    assert!(matches!(release_check_from_metadata(&meta), ReleaseCheck::Current));
}

#[test]
fn unusable_releases_are_unknown() {
    let unknown = |m: ReleaseMetadata| matches!(release_check_from_metadata(&m), ReleaseCheck::Unknown);
    assert!(unknown(release(None, None)));
    assert!(unknown(release(Some("v9.0.0"), None)));
    assert!(unknown(release(Some("v9.0.0"), Some(vec![]))));
    // not uploaded
    assert!(unknown(release(
        Some("v9.0.0"),
        Some(vec![asset("setup.exe", "new", GOOD_URL, HELLO_WORLD_SHA256, 11)])
    )));
    // digest of the wrong length or kind
    assert!(unknown(release(
        Some("v9.0.0"),
        Some(vec![asset("setup.exe", "uploaded", GOOD_URL, "sha256:abc", 11)])
    )));
    assert!(unknown(release(
        Some("v9.0.0"),
        Some(vec![asset(
            "setup.exe",
            "uploaded",
            GOOD_URL,
            "sha512:b94d27b9934d3e08a52e52d7da7dabfac484efe37a5380ee9088f7ace2efcde9",
            11
        )])
    )));
    // size zero or too large
    assert!(unknown(release(
        Some("v9.0.0"),
        Some(vec![asset("setup.exe", "uploaded", GOOD_URL, HELLO_WORLD_SHA256, 0)])
    )));
    assert!(unknown(release(
        Some("v9.0.0"),
        Some(vec![asset("setup.exe", "uploaded", GOOD_URL, HELLO_WORLD_SHA256, 16 * 1024 * 1024 + 1)])
    )));
    // another repository or host
    assert!(unknown(release(
        Some("v9.0.0"),
        Some(vec![asset(
            "setup.exe",
            "uploaded",
            "https://github.com/someone/else/releases/download/v9/setup.exe",
            HELLO_WORLD_SHA256,
            11
        )])
    )));
    assert!(unknown(release(
        Some("v9.0.0"),
        Some(vec![asset(
            "setup.exe",
            "uploaded",
            "https://example.com/BobanAliBrz/BrojRacunaraAliBrz/releases/download/v9/setup.exe",
            HELLO_WORLD_SHA256,
            11
        )])
    )));
}

#[test]
fn first_matching_asset_decides() {
    // The first uploaded setup.exe is used even when a later one would pass.
    let meta = release(
        Some("v9.0.0"),
        Some(vec![
            asset("setup.exe", "uploaded", GOOD_URL, "bad", 11),
            asset("setup.exe", "uploaded", GOOD_URL, HELLO_WORLD_SHA256, 11),
        ]),
    );
    assert!(matches!(release_check_from_metadata(&meta), ReleaseCheck::Unknown));
}

#[test]
fn update_steps() {
    assert!(matches!(first_update_step(ReleaseCheck::Current), UpdateStep::Finished));
    assert!(matches!(first_update_step(ReleaseCheck::Unknown), UpdateStep::TryShare(None)));
    let info = ReleaseInfo {
        tag: "v1.3.0".to_string(),
        path: "/x".to_string(),
        digest: HELLO_WORLD_SHA256.to_string(),
        size: 11,
    };
    match step_after_release_download(info, false) {
        UpdateStep::TryShare(Some(e)) => {
            assert_eq!(e.digest, HELLO_WORLD_SHA256);
            assert_eq!(e.size, 11);
        }
        _ => panic!("expected the share with the known digest"),
    }
    let info = ReleaseInfo { tag: String::new(), path: String::new(), digest: String::new(), size: 1 };
    assert!(matches!(step_after_release_download(info, true), UpdateStep::Finished));
}

#[test]
fn share_bytes() {
    let known = Some(ExpectedInstaller { digest: HELLO_WORLD_SHA256.to_string(), size: 11 });
    assert!(share_bytes_acceptable(b"hello world", &known));
    assert!(!share_bytes_acceptable(b"hello world?", &known));
    assert!(share_bytes_acceptable(b"anything", &None));
    assert!(!share_bytes_acceptable(b"", &None));
    assert!(installer_verified(b"", &ExpectedInstaller { digest: EMPTY_SHA256.to_string(), size: 0 }));
    assert!(share_file_size_allowed(1));
    assert!(share_file_size_allowed(16 * 1024 * 1024));
    assert!(!share_file_size_allowed(16 * 1024 * 1024 + 1));
    assert!(!share_file_size_allowed(0));
}

fn entry(path: &str, name: &str, is_file: bool) -> ShareEntry {
    ShareEntry { path: Some(path.to_string()), name: Some(name.to_string()), is_file }
}

#[test]
fn share_candidates_newest_first() {
    let entries = vec![
        entry("s\\TaskbarIP_Setup_v1.2.5.exe", "TaskbarIP_Setup_v1.2.5.exe", true),
        entry("s\\TaskbarIP_Setup_v1.2.4.exe", "TaskbarIP_Setup_v1.2.4.exe", true),
        entry("s\\TaskbarIP_Setup_v1.3.0.exe", "TaskbarIP_Setup_v1.3.0.exe", true),
        entry("s\\TaskbarIP_Setup_v1.3.0.txt", "TaskbarIP_Setup_v1.3.0.txt", true),
        entry("s\\dir_v9.0.0.exe", "dir_v9.0.0.exe", false),
        entry("s\\TaskbarIP_Setup_v1.2.4.1.EXE", "TaskbarIP_Setup_v1.2.4.1.EXE", true),
        entry("s\\copy_v1.3.0.exe", "copy_v1.3.0.exe", true),
        ShareEntry { path: None, name: Some("x_v5.0.0.exe".to_string()), is_file: true },
        ShareEntry { path: Some("s\\?".to_string()), name: None, is_file: true },
    ];
    let found = share_update_candidates(&entries);
    let expected = vec![
        ("s\\TaskbarIP_Setup_v1.3.0.exe".to_string(), (1, 3, 0, 0)),
        ("s\\copy_v1.3.0.exe".to_string(), (1, 3, 0, 0)),
        ("s\\TaskbarIP_Setup_v1.2.5.exe".to_string(), (1, 2, 5, 0)),
        ("s\\TaskbarIP_Setup_v1.2.4.1.EXE".to_string(), (1, 2, 4, 1)),
    ];
    assert_eq!(found, expected);
    assert!(share_update_candidates(&[]).is_empty());
}

#[test]
fn names_and_tags() {
    assert_eq!(share_release_tag((1, 2, 5, 7)), "v1.2.5");
    assert_eq!(staged_installer_name("v1.3.0"), "TaskbarIP-1.3.0-setup.exe");
    assert_eq!(staged_installer_name("1.3.0"), "TaskbarIP-1.3.0-setup.exe");
    assert_eq!(staged_installer_name("vv2"), "TaskbarIP-2-setup.exe");
}
