use phpvm::cache::{hash_url, sha256_hex, tree_checksum, progress_due, recent_throughput, CacheFetch, FetchAction, FetchEvent};
use phpvm::commands::{thread_safe_param, version_status};
use phpvm::config::Config;
use phpvm::error::LifecycleError;
use phpvm::install::{
    parse_target, plan_removal, release_archive_url, InstallAction, InstallEvent, InstallJob,
};
use phpvm::manager::{check_switch, commit_switch, plan_switch};
use phpvm::platform::Platform;
use phpvm::state::PhpState;
use phpvm::version::{PhpVersion, Variant};

/// Runs an install through to its record, answering every probe as a
/// successful step would, and adds the record to `state`.
fn install(state: &mut PhpState, version: &str, variant: Variant) -> String {
    let v = PhpVersion::from_string(version).unwrap();
    let (mut job, first) = InstallJob::start(&v, variant, "/data/versions", None, Platform::Posix);
    assert!(matches!(first, InstallAction::ProbeDir { .. }));
    let a = job.step(InstallEvent::Probed { dir_exists: false, marker_exists: false });
    assert!(matches!(a, InstallAction::Fetch(_)));
    let a = job.step(InstallEvent::Fetched(Ok("/data/cache/abc".to_string())));
    assert!(matches!(a, InstallAction::Extract { .. }));
    let a = job.step(InstallEvent::Extracted { ok: true });
    assert!(matches!(a, InstallAction::ProbeMarker(_)));
    let a = job.step(InstallEvent::MarkerProbed { present: true });
    assert!(matches!(a, InstallAction::HashTree(_)));
    let a = job.step(InstallEvent::Hashed { checksum: Ok("ff".to_string()), at_secs: 1700000000 });
    match a {
        InstallAction::Record { key, metadata } => {
            assert_eq!(metadata.installed_at, "1700000000");
            assert_eq!(metadata.version, key);
            state.add_version(key.clone(), metadata);
            let done = job.step(InstallEvent::Recorded { ok: true });
            assert!(matches!(done, InstallAction::Finish(_)));
            key
        }
        _ => panic!("expected a record"),
    }
}

#[test]
fn install_plans_directory_marker_and_url() {
    let v = PhpVersion::new(8, 2, 0);
    let (job, first) = InstallJob::start(&v, Variant::NonThreadSafe, "/data/versions", None, Platform::Windows);
    assert_eq!(job.dir, "/data/versions/php-8.2.0-nts");
    assert_eq!(job.marker, "/data/versions/php-8.2.0-nts/php.exe");
    assert_eq!(job.key, "8.2.0-nts");
    assert_eq!(job.url, "https://windows.php.net/downloads/releases/php-8.2.0-nts-Win32-vs16-x64.zip");
    match first {
        InstallAction::ProbeDir { dir, marker } => {
            assert_eq!(dir, job.dir);
            assert_eq!(marker, job.marker);
        }
        _ => panic!("expected a probe"),
    }
    let (job, _) = InstallJob::start(&v, Variant::ThreadSafe, "/v", Some("https://mirror/x.zip"), Platform::Posix);
    assert_eq!(job.url, "https://mirror/x.zip");
    assert_eq!(
        release_archive_url(&PhpVersion::new(8, 4, 1), Variant::ThreadSafe),
        "https://windows.php.net/downloads/releases/php-8.4.1-Win32-vs17-x64.zip"
    );
}

#[test]
fn installing_twice_is_refused_until_removed() {
    let v = PhpVersion::new(8, 2, 0);
    let (mut job, _) = InstallJob::start(&v, Variant::ThreadSafe, "/v", None, Platform::Posix);
    let a = job.step(InstallEvent::Probed { dir_exists: true, marker_exists: true });
    assert!(matches!(a, InstallAction::Fail(LifecycleError::AlreadyInstalled)));
    // after removal the directory is gone, and the install goes ahead
    let (mut job, _) = InstallJob::start(&v, Variant::ThreadSafe, "/v", None, Platform::Posix);
    let a = job.step(InstallEvent::Probed { dir_exists: false, marker_exists: false });
    assert!(matches!(a, InstallAction::Fetch(_)));
}

#[test]
fn partial_install_is_cleared_first() {
    let v = PhpVersion::new(8, 3, 0);
    let (mut job, _) = InstallJob::start(&v, Variant::ThreadSafe, "/v", None, Platform::Posix);
    match job.step(InstallEvent::Probed { dir_exists: true, marker_exists: false }) {
        InstallAction::RemoveDir(d) => assert_eq!(d, "/v/php-8.3.0-ts"),
        _ => panic!("expected removal"),
    }
    assert!(matches!(job.step(InstallEvent::PartialCleared { ok: false }), InstallAction::Fail(LifecycleError::Io)));
}

#[test]
fn failed_extraction_leaves_no_directory() {
    let v = PhpVersion::new(8, 2, 0);
    let (mut job, _) = InstallJob::start(&v, Variant::NonThreadSafe, "/v", None, Platform::Posix);
    job.step(InstallEvent::Probed { dir_exists: false, marker_exists: false });
    job.step(InstallEvent::Fetched(Ok("/c/1".to_string())));
    match job.step(InstallEvent::Extracted { ok: false }) {
        InstallAction::CleanupAndFail { dir, error } => {
            assert_eq!(dir, "/v/php-8.2.0-nts");
            assert_eq!(error, LifecycleError::ExtractionIncomplete);
        }
        _ => panic!("expected cleanup"),
    }
    assert!(matches!(job.step(InstallEvent::Extracted { ok: true }), InstallAction::Ignore));
}

#[test]
fn missing_executable_after_extraction_cleans_up() {
    let v = PhpVersion::new(8, 2, 0);
    let (mut job, _) = InstallJob::start(&v, Variant::ThreadSafe, "/v", None, Platform::Posix);
    job.step(InstallEvent::Probed { dir_exists: false, marker_exists: false });
    job.step(InstallEvent::Fetched(Ok("/c/1".to_string())));
    job.step(InstallEvent::Extracted { ok: true });
    assert!(matches!(
        job.step(InstallEvent::MarkerProbed { present: false }),
        InstallAction::CleanupAndFail { error: LifecycleError::ExtractionIncomplete, .. }
    ));
}

#[test]
fn download_errors_pass_through() {
    let v = PhpVersion::new(8, 2, 0);
    let (mut job, _) = InstallJob::start(&v, Variant::ThreadSafe, "/v", None, Platform::Posix);
    job.step(InstallEvent::Probed { dir_exists: false, marker_exists: false });
    assert!(matches!(
        job.step(InstallEvent::Fetched(Err(LifecycleError::Network))),
        InstallAction::Fail(LifecycleError::Network)
    ));
}

#[test]
fn install_switch_and_second_variant() {
    let mut state = PhpState::default();
    let mut config = Config::with_base("/data");
    let key = install(&mut state, "8.2.0", Variant::NonThreadSafe);
    assert_eq!(key, "8.2.0-nts");
    assert_eq!(state.installed_versions, vec!["8.2.0-nts".to_string()]);

    let plan = plan_switch(&state, "8.2.0-nts", "/data/versions", Platform::Posix).unwrap();
    assert_eq!(plan.dir, "/data/versions/php-8.2.0-nts");
    assert_eq!(plan.marker, "/data/versions/php-8.2.0-nts/bin/php");
    assert_eq!(check_switch(true, true), Ok(()));
    commit_switch(&mut state, &mut config, &plan.key);
    assert_eq!(state.active_version, Some("8.2.0-nts".to_string()));
    assert_eq!(config.active_version, Some("8.2.0".to_string()));

    let key = install(&mut state, "8.2.0", Variant::ThreadSafe);
    assert_eq!(key, "8.2.0-ts");
    assert_eq!(state.installed_versions, vec!["8.2.0-nts".to_string(), "8.2.0-ts".to_string()]);
    assert!(state.get_metadata("8.2.0-nts").is_some());
    assert!(state.get_metadata("8.2.0-ts").is_some());
}

#[test]
fn switch_by_bare_version_takes_first_variant() {
    let mut state = PhpState::default();
    install(&mut state, "8.3.1", Variant::ThreadSafe);
    let plan = plan_switch(&state, "8.3.1", "/v", Platform::Posix).unwrap();
    assert_eq!(plan.key, "8.3.1-ts");
    assert!(plan_switch(&state, "7.4.0", "/v", Platform::Posix).is_err());
    assert_eq!(check_switch(true, false), Err(LifecycleError::NotInstalled));
}

#[test]
fn removal_targets() {
    let (v, variant) = parse_target("8.5.1-nts").unwrap();
    assert_eq!(v, PhpVersion::new(8, 5, 1));
    assert_eq!(variant, Some(Variant::NonThreadSafe));
    let (v, variant) = parse_target("8.5.1").unwrap();
    assert_eq!(variant, None);
    assert!(matches!(parse_target("8.5-ts"), Err(LifecycleError::Parse(_))));

    let plan = plan_removal(&v, None, "/v", false, true);
    assert_eq!(plan.dir, "/v/php-8.5.1-nts");
    assert_eq!(plan.key, "8.5.1-nts");
    let plan = plan_removal(&v, None, "/v", false, false);
    assert_eq!(plan.dir, "/v/php-8.5.1");
    assert_eq!(plan.key, "8.5.1");
    let plan = plan_removal(&v, Some(Variant::ThreadSafe), "/v", false, true);
    assert_eq!(plan.key, "8.5.1-ts");
}

#[test]
fn checksum_of_known_bytes() {
    assert_eq!(
        sha256_hex(b"abc"),
        "ba7816bf8f01cfea414140de5dae2223b00361a396177a9cb410ff61f20015ad"
    );
    let files = vec![b"ab".to_vec(), b"c".to_vec()];
    assert_eq!(tree_checksum(&files), sha256_hex(b"abc"));
}

#[test]
fn cache_names_are_hex_fingerprints() {
    let a = hash_url("https://example.com/a.zip");
    assert_eq!(a, hash_url("https://example.com/a.zip"));
    assert_ne!(a, hash_url("https://example.com/b.zip"));
    assert!(!a.is_empty() && a.len() <= 16);
    assert!(a.chars().all(|c| c.is_ascii_hexdigit() && !c.is_ascii_uppercase()));
}

#[test]
fn corrupted_cache_entry_is_downloaded_again() {
    let good = sha256_hex(b"archive");
    let (mut fetch, first) = CacheFetch::start("https://x/a.zip", "/cache", Some(&good));
    let path = match first {
        FetchAction::ProbeCache(p) => p,
        _ => panic!("expected a probe"),
    };
    assert!(matches!(fetch.step(FetchEvent::CacheProbed { exists: true, size: 7 }), FetchAction::HashCached(_)));
    match fetch.step(FetchEvent::CachedDigest(sha256_hex(b"corrupt"))) {
        FetchAction::Download { url, path: p } => {
            assert_eq!(url, "https://x/a.zip");
            assert_eq!(p, path);
        }
        _ => panic!("expected a download"),
    }
    assert!(matches!(fetch.step(FetchEvent::Downloaded(Ok(()))), FetchAction::HashDownload(_)));
    assert!(matches!(fetch.step(FetchEvent::DownloadDigest(good.clone())), FetchAction::Finish(_)));
}

#[test]
fn cache_hit_without_checksum_reports_full_size() {
    let (mut fetch, _) = CacheFetch::start("https://x/a.zip", "/cache", None);
    match fetch.step(FetchEvent::CacheProbed { exists: true, size: 42 }) {
        FetchAction::UseCached { size, .. } => assert_eq!(size, 42),
        _ => panic!("expected the cached entry"),
    }
}

#[test]
fn bad_download_is_deleted() {
    let (mut fetch, _) = CacheFetch::start("https://x/a.zip", "/cache", Some("00"));
    fetch.step(FetchEvent::CacheProbed { exists: false, size: 0 });
    fetch.step(FetchEvent::Downloaded(Ok(())));
    assert!(matches!(
        fetch.step(FetchEvent::DownloadDigest("11".to_string())),
        FetchAction::DeleteAndFail { error: LifecycleError::ChecksumMismatch, .. }
    ));
}

#[test]
fn progress_reporting() {
    assert!(progress_due(100, 1, 10));
    assert!(!progress_due(99, 1, 10));
    assert!(progress_due(0, 10, 10));
    assert_eq!(recent_throughput(500, 250), 2000);
    assert_eq!(recent_throughput(500, 0), 0);
}

#[test]
fn version_status_of_installed_variants() {
    let installed = vec!["8.2.0-ts".to_string(), "8.2.0-nts".to_string(), "8.3.0-nts".to_string()];
    let s = version_status("8.2.0", &installed, Some("8.2.0"), "/v", None);
    assert!(s.installed && s.active && !s.online);
    assert_eq!(s.install_path, Some("/v/php-8.2.0-ts".to_string()));
    assert_eq!(s.thread_safe, None);
    let s = version_status("8.3.0", &installed, None, "/v", None);
    assert_eq!(s.install_path, Some("/v/php-8.3.0-nts".to_string()));
    assert_eq!(s.thread_safe, Some(false));
    let s = version_status("8.4.0", &installed, None, "/v", None);
    assert!(!s.installed);
    assert_eq!(s.install_path, None);
    assert_eq!(thread_safe_param("nts"), Some(false));
    assert_eq!(thread_safe_param("ts"), Some(true));
    assert_eq!(thread_safe_param("other"), Some(true));
}
