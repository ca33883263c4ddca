use phpvm::provider::{get_base_url, get_vs_version, Provider};

#[test]
fn test_get_vs_version() {
    assert_eq!(Provider::get_vs_version(8, 4), "vs17");
    assert_eq!(Provider::get_vs_version(8, 5), "vs17");
    assert_eq!(Provider::get_vs_version(9, 0), "vs17");

    assert_eq!(Provider::get_vs_version(8, 0), "vs16");
    assert_eq!(Provider::get_vs_version(8, 1), "vs16");
    assert_eq!(Provider::get_vs_version(8, 2), "vs16");
    assert_eq!(Provider::get_vs_version(8, 3), "vs16");

    assert_eq!(Provider::get_vs_version(7, 4), "vc15");

    assert_eq!(Provider::get_vs_version(7, 2), "VC15");
    assert_eq!(Provider::get_vs_version(7, 3), "VC15");

    assert_eq!(Provider::get_vs_version(7, 0), "VC14");
    assert_eq!(Provider::get_vs_version(7, 1), "VC14");

    assert_eq!(Provider::get_vs_version(5, 6), "VC11");
    assert_eq!(Provider::get_vs_version(5, 5), "VC11");
}

#[test]
fn test_is_archived_version() {
    assert!(Provider::is_archived_version(5, 6));
    assert!(Provider::is_archived_version(7, 0));
    assert!(Provider::is_archived_version(7, 1));
    assert!(Provider::is_archived_version(7, 2));
    assert!(Provider::is_archived_version(7, 3));

    assert!(!Provider::is_archived_version(7, 4));
    assert!(!Provider::is_archived_version(8, 0));
    assert!(!Provider::is_archived_version(8, 1));
    assert!(!Provider::is_archived_version(8, 2));
    assert!(!Provider::is_archived_version(8, 3));
    assert!(!Provider::is_archived_version(8, 4));
}

#[test]
fn test_generate_download_url() {
    let url = Provider::generate_download_url("8.2.0", 8, 2);
    assert!(url.contains("php-8.2.0-Win32-vs16-x64.zip"));

    let url = Provider::generate_download_url("8.4.0", 8, 4);
    assert!(url.contains("php-8.4.0-Win32-vs17-x64.zip"));

    let url = Provider::generate_download_url("7.4.33", 7, 4);
    assert!(url.contains("php-7.4.33-Win32-vc15-x64.zip"));

    let url = Provider::generate_download_url("7.3.33", 7, 3);
    assert!(url.contains("php-7.3.33-Win32-VC15-x64.zip"));
    assert!(url.contains("archives"));

    let url = Provider::generate_download_url("7.0.33", 7, 0);
    assert!(url.contains("php-7.0.33-Win32-VC14-x64.zip"));
    assert!(url.contains("archives"));

    let url = Provider::generate_download_url("5.6.40", 5, 6);
    assert!(url.contains("php-5.6.40-Win32-VC11-x64.zip"));
    assert!(url.contains("archives"));
}

#[test]
fn test_get_eol_date() {
    assert_eq!(Provider::get_eol_date(8, 5), Some("2029-12-31".to_string()));
    assert_eq!(Provider::get_eol_date(8, 4), Some("2028-12-31".to_string()));
    assert_eq!(Provider::get_eol_date(8, 3), Some("2027-12-31".to_string()));
    assert_eq!(Provider::get_eol_date(8, 2), Some("2026-12-31".to_string()));
    assert_eq!(Provider::get_eol_date(8, 1), Some("2025-12-31".to_string()));
    assert_eq!(Provider::get_eol_date(8, 0), Some("2023-11-26".to_string()));
    assert_eq!(Provider::get_eol_date(7, 4), Some("2022-11-28".to_string()));
    assert_eq!(Provider::get_eol_date(7, 3), Some("2021-12-06".to_string()));
    assert_eq!(Provider::get_eol_date(7, 2), Some("2020-11-30".to_string()));
    assert_eq!(Provider::get_eol_date(7, 1), Some("2019-12-01".to_string()));
    assert_eq!(Provider::get_eol_date(7, 0), Some("2019-01-10".to_string()));
    assert_eq!(Provider::get_eol_date(5, 6), Some("2018-12-31".to_string()));

    assert_eq!(Provider::get_eol_date(9, 0), None);
    assert_eq!(Provider::get_eol_date(6, 0), None);
}

#[test]
fn test_generate_download_url_public_api() {
    let url = Provider::generate_download_url("8.2.0", 8, 2);
    assert!(url.contains("php-8.2.0-Win32-vs16-x64.zip"));

    let url = Provider::generate_download_url("8.4.0", 8, 4);
    assert!(url.contains("php-8.4.0-Win32-vs17-x64.zip"));

    let url = Provider::generate_download_url("7.4.33", 7, 4);
    assert!(url.contains("php-7.4.33-Win32-vc15-x64.zip"));

    let url = Provider::generate_download_url("7.3.33", 7, 3);
    assert!(url.contains("php-7.3.33-Win32-VC15-x64.zip"));
    assert!(url.contains("archives"));

    let url = Provider::generate_download_url("5.6.40", 5, 6);
    assert!(url.contains("php-5.6.40-Win32-VC11-x64.zip"));
    assert!(url.contains("archives"));
}

#[test]
fn test_get_eol_date_public_api() {
    assert_eq!(Provider::get_eol_date(8, 5), Some("2029-12-31".to_string()));
    assert_eq!(Provider::get_eol_date(8, 4), Some("2028-12-31".to_string()));
    assert_eq!(Provider::get_eol_date(8, 3), Some("2027-12-31".to_string()));
    assert_eq!(Provider::get_eol_date(8, 2), Some("2026-12-31".to_string()));
    assert_eq!(Provider::get_eol_date(8, 1), Some("2025-12-31".to_string()));
    assert_eq!(Provider::get_eol_date(8, 0), Some("2023-11-26".to_string()));
    assert_eq!(Provider::get_eol_date(7, 4), Some("2022-11-28".to_string()));
    assert_eq!(Provider::get_eol_date(7, 3), Some("2021-12-06".to_string()));
    assert_eq!(Provider::get_eol_date(7, 2), Some("2020-11-30".to_string()));
    assert_eq!(Provider::get_eol_date(7, 1), Some("2019-12-01".to_string()));
    assert_eq!(Provider::get_eol_date(7, 0), Some("2019-01-10".to_string()));
    assert_eq!(Provider::get_eol_date(5, 6), Some("2018-12-31".to_string()));

    assert_eq!(Provider::get_eol_date(9, 0), None);
    assert_eq!(Provider::get_eol_date(6, 0), None);
}

#[test]
fn full_download_url_and_base() {
    assert_eq!(
        Provider::generate_download_url("7.3.33", 7, 3),
        "https://windows.php.net/downloads/releases/archives/php-7.3.33-Win32-VC15-x64.zip"
    );
    assert_eq!(get_base_url(8, 2), "https://windows.php.net/downloads/releases/");
    assert_eq!(get_vs_version(7, 4), "vc15");
}

#[test]
fn thread_safety_from_names() {
    assert_eq!(Provider::detect_thread_safe_from_url("php-8.2.0-nts-Win32-vs16-x64.zip"), Some(false));
    assert_eq!(Provider::detect_thread_safe_from_url("php-8.2.0-Win32-vs16-x64.zip"), Some(true));
    assert_eq!(Provider::detect_thread_safe_from_filename("PHP-8.2.0-NTS.zip"), Some(false));
    assert_eq!(Provider::detect_thread_safe_from_filename("php_8.2.0_TS.zip"), Some(true));
    assert_eq!(Provider::detect_thread_safe_from_filename("php-8.2.0.zip"), None);
}
