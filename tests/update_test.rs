use phpvm::platform::Platform;
use phpvm::update::{
    compare_versions, detect_platform_asset, get_current_version, get_file_extension_from_url,
    matches_app_name, ReleaseAsset,
};

#[test]
fn update_test_version_comparison() {
    assert_eq!(compare_versions("0.1.0", "0.2.0"), -1);
    assert_eq!(compare_versions("0.2.0", "0.1.0"), 1);
    assert_eq!(compare_versions("0.1.0", "0.1.0"), 0);
    assert_eq!(compare_versions("0.1.0.0", "0.1.0"), 0);
    assert_eq!(compare_versions("1.0.0", "0.9.9"), 1);
}

#[test]
fn test_matches_app_name() {
    assert!(matches_app_name("PHP Version Manager_0.1.0_x64-setup.exe"));
    assert!(matches_app_name("PHP.Version.Manager_0.1.0_x64_en-US.msi"));
    assert!(matches_app_name("php-version-manager_0.1.0_amd64.AppImage"));
    assert!(matches_app_name("phpvm_0.1.0_amd64.deb"));
    assert!(!matches_app_name("some-other-app.exe"));
}

#[test]
fn non_numeric_components_are_skipped() {
    assert_eq!(compare_versions("1.x.2", "1.2"), 0);
    assert_eq!(compare_versions("", "0.0"), 0);
    assert_eq!(compare_versions("4294967296.1", "1"), 0);
}

fn asset(name: &str) -> ReleaseAsset {
    ReleaseAsset { name: name.to_string(), browser_download_url: format!("https://dl/{}", name) }
}

#[test]
fn asset_choice_by_platform() {
    let assets = vec![
        asset("PHP Version Manager_0.2.0_x64-setup.exe"),
        asset("PHP.Version.Manager_0.2.0_x64_en-US.msi"),
        asset("phpvm_0.2.0.exe"),
        asset("php-version-manager_0.2.0_amd64.deb"),
        asset("php-version-manager_0.2.0_amd64.AppImage"),
    ];
    assert_eq!(
        detect_platform_asset(Platform::Windows, true, &assets),
        Some("https://dl/phpvm_0.2.0.exe".to_string())
    );
    assert_eq!(
        detect_platform_asset(Platform::Windows, false, &assets),
        Some("https://dl/PHP Version Manager_0.2.0_x64-setup.exe".to_string())
    );
    assert_eq!(
        detect_platform_asset(Platform::Posix, false, &assets),
        Some("https://dl/php-version-manager_0.2.0_amd64.AppImage".to_string())
    );
    assert_eq!(detect_platform_asset(Platform::Posix, false, &vec![asset("other.rpm")]), None);
}

#[test]
fn extension_of_update_urls() {
    assert_eq!(get_file_extension_from_url("https://x/a.msi?sig=1", Platform::Windows), "msi");
    assert_eq!(get_file_extension_from_url("https://x/a.AppImage", Platform::Posix), "AppImage");
    assert_eq!(get_file_extension_from_url("https://x/download", Platform::Windows), ".exe");
    assert_eq!(get_file_extension_from_url("https://x/download?a.b", Platform::Posix), ".AppImage");
}

#[test]
fn current_version_is_set() {
    assert_eq!(get_current_version(), "0.1.0");
}
