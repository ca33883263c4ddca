use phpvm::commands::{cache_candidates, cache_names, forward_progress, label_of, percent_done};
use phpvm::cache::hash_url;
use phpvm::listing::{merge_installed, sort_texts, InstallDir};
use phpvm::platform::Platform;
use phpvm::provider::{fallback_versions, parse_date_to_iso, sort_newest_first, top_versions, version_info_for, VersionInfo};
use phpvm::update::{
    is_standalone_executable, update_info_from, update_step, ReleaseAsset, UpdateStep,
};

fn info(v: &str) -> VersionInfo {
    VersionInfo { version: v.to_string(), release_date: None, eol_date: None, download_url: None, checksum: None }
}

#[test]
fn installed_list_merges_disk_and_state() {
    let disk = vec![
        InstallDir { name: "php-8.3.0-ts".to_string(), complete: true },
        InstallDir { name: "php-8.1.0-nts".to_string(), complete: false },
        InstallDir { name: "other".to_string(), complete: true },
    ];
    let recorded = vec![
        InstallDir { name: "8.3.0-ts".to_string(), complete: true },
        InstallDir { name: "8.2.0-ts".to_string(), complete: true },
        InstallDir { name: "7.4.0-ts".to_string(), complete: false },
    ];
    let (installed, partial) = merge_installed(&disk, &recorded);
    assert_eq!(installed, vec!["8.2.0-ts".to_string(), "8.3.0-ts".to_string()]);
    assert_eq!(partial, vec!["php-8.1.0-nts".to_string()]);
}

#[test]
fn text_order_sorts_like_strings() {
    let v = vec!["b".to_string(), "a".to_string(), "ab".to_string(), "B".to_string(), "a".to_string()];
    let mut expected = v.clone();
    expected.sort();
    assert_eq!(sort_texts(v), expected);
}

#[test]
fn version_info_is_completed() {
    let listed = vec![info("8.2.30")];
    let i = version_info_for("8.2.30", listed).unwrap();
    assert_eq!(i.eol_date, Some("2026-12-31".to_string()));
    assert_eq!(
        i.download_url,
        Some("https://windows.php.net/downloads/releases/php-8.2.30-Win32-vs16-x64.zip".to_string())
    );
    let i = version_info_for("7.3.1", vec![]).unwrap();
    assert_eq!(i.eol_date, Some("2021-12-06".to_string()));
    assert!(i.download_url.unwrap().contains("archives"));
    assert!(version_info_for("latest", vec![]).is_none());
}

#[test]
fn fallback_list_is_newest_first() {
    let all = fallback_versions();
    assert_eq!(all.len(), 12);
    assert_eq!(all[0].version, "8.5.1");
    assert_eq!(all[11].eol_date, Some("2018-12-31".to_string()));
    let top = top_versions(all, 3);
    let names: Vec<String> = top.iter().map(|v| v.version.clone()).collect();
    assert_eq!(names, vec!["8.5.1", "8.4.16", "8.3.29"]);
}

#[test]
fn newest_first_keeps_equal_releases_in_order() {
    let sorted = sort_newest_first(vec![info("7.4.1"), info("x"), info("8.0.0"), info("8.0.0-rc1")]);
    let names: Vec<String> = sorted.iter().map(|v| v.version.clone()).collect();
    assert_eq!(names, vec!["8.0.0", "8.0.0-rc1", "7.4.1", "x"]);
}

#[test]
fn release_check_outcome() {
    let assets = vec![ReleaseAsset {
        name: "phpvm_0.2.0_amd64.AppImage".to_string(),
        browser_download_url: "https://dl/a".to_string(),
    }];
    let u = update_info_from("0.1.0", "vv0.2.0", "https://rel", &assets, Platform::Posix, false);
    assert_eq!(u.latest_version, "0.2.0");
    assert!(u.update_available);
    assert_eq!(u.download_url, Some("https://dl/a".to_string()));
    let u = update_info_from("0.2.0", "v0.2.0", "https://rel", &assets, Platform::Posix, false);
    assert!(!u.update_available);
}

#[test]
fn portable_or_installed() {
    assert!(is_standalone_executable(Some("D:\\Tools\\phpvm.exe")));
    assert!(!is_standalone_executable(Some("C:\\Program Files\\PHP Version Manager\\phpvm.exe")));
    assert!(!is_standalone_executable(Some("D:\\dl\\phpvm-Setup.exe")));
    assert!(!is_standalone_executable(None));
}

#[test]
fn update_steps_by_file_type() {
    assert_eq!(update_step(Platform::Windows, "x.msi", "MSI"), UpdateStep::RunMsi);
    assert_eq!(update_step(Platform::Windows, "phpvm_x64-setup.exe", "exe"), UpdateStep::LaunchInstaller);
    assert_eq!(update_step(Platform::Windows, "phpvm.exe", "exe"), UpdateStep::ReplaceExecutable);
    assert_eq!(update_step(Platform::Posix, "a.appimage", "appimage"), UpdateStep::MakeExecutable);
    assert_eq!(update_step(Platform::Posix, "a.deb", "deb"), UpdateStep::InstallDeb);
    assert_eq!(update_step(Platform::Posix, "a.rpm", "RPM"), UpdateStep::InstallRpm);
    assert_eq!(update_step(Platform::Posix, "a.zip", "zip"), UpdateStep::Unsupported);
}

#[test]
fn cache_candidates_of_a_release_line() {
    let c = cache_candidates("8.4.2");
    assert_eq!(c.len(), 4);
    assert_eq!(c[0].0, "https://windows.php.net/downloads/releases/php-8.4.2-Win32-vs17-x64.zip");
    assert_eq!(c[1].1, "8.4.2-nts");
    assert_eq!(c[2].0, "https://windows.php.net/downloads/releases/php-8.4.2-Win32-vs16-x64.zip");
    assert_eq!(cache_candidates("7.4.33").len(), 2);
    assert_eq!(cache_candidates("7.2.1")[2].0, "https://windows.php.net/downloads/releases/archives/php-7.2.1-Win32-VC14-x64.zip");
    assert!(cache_candidates("8.4").is_empty());
}

#[test]
fn cached_entries_are_labelled() {
    let named = cache_names(&vec!["8.3.1".to_string()]);
    let nts = hash_url("https://windows.php.net/downloads/releases/php-8.3.1-nts-Win32-vs16-x64.zip");
    assert_eq!(label_of(&nts, &named), Some("8.3.1-nts".to_string()));
    assert_eq!(label_of("0", &named), None);
}

#[test]
fn progress_forwarding_and_percent() {
    assert!(forward_progress(100, 5, 10, 5));
    assert!(forward_progress(0, 10, 10, 5));
    assert!(forward_progress(0, 1, 10, 0));
    assert!(!forward_progress(50, 1, 10, 1));
    assert_eq!(percent_done(5, 10), 50);
    assert_eq!(percent_done(5, 0), 0);
    assert_eq!(percent_done(u64::MAX, 1), u64::MAX);
}

#[test]
fn dates_read_as_iso() {
    assert_eq!(parse_date_to_iso("December 31, 2029"), Some("2029-12-31".to_string()));
    assert_eq!(parse_date_to_iso("  Dec   1,  2029 "), Some("2029-12-01".to_string()));
    assert_eq!(parse_date_to_iso("MAY 5 2030"), Some("2030-05-05".to_string()));
    assert_eq!(parse_date_to_iso("Foo 1, 2029"), None);
    assert_eq!(parse_date_to_iso("December 32, 2029"), None);
    assert_eq!(parse_date_to_iso("December 31, 1999"), None);
    assert_eq!(parse_date_to_iso("2029-12-31"), None);
}

#[test]
fn install_request_flag() {
    let p = phpvm::commands::InstallVersionParams { version: "8.2.0".to_string(), thread_safe: "nts".to_string() };
    assert_eq!(p.thread_safe_flag(), Some(false));
    let p = phpvm::commands::InstallVersionParams { version: "8.2.0".to_string(), thread_safe: "ts".to_string() };
    assert_eq!(p.thread_safe_flag(), Some(true));
}
