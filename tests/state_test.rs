use phpvm::install::{commit_removal, RemovalPlan};
use phpvm::error::LifecycleError;
use phpvm::state::{InstallMetadata, PhpState};

fn record(version: &str, path: &str, at: &str, checksum: Option<&str>) -> InstallMetadata {
    InstallMetadata {
        version: version.to_string(),
        install_path: path.to_string(),
        installed_at: at.to_string(),
        checksum: checksum.map(|c| c.to_string()),
        source: "official".to_string(),
    }
}

#[test]
fn test_state_default() {
    let state = PhpState::default();
    assert!(state.installed_versions.is_empty());
    assert_eq!(state.active_version, None);
    assert_eq!(state.last_known_good, None);
    assert!(state.install_metadata.is_empty());
}

#[test]
fn test_state_add_version() {
    let mut state = PhpState::default();
    let metadata = record("8.2.0", "/test/php-8.2.0", "2024-01-01", Some("abc123"));

    state.add_version("8.2.0".to_string(), metadata.clone());

    assert_eq!(state.installed_versions.len(), 1);
    assert!(state.installed_versions.contains(&"8.2.0".to_string()));
    assert_eq!(state.get_metadata("8.2.0"), Some(&metadata));
}

#[test]
fn test_state_add_version_duplicate() {
    let mut state = PhpState::default();
    let metadata1 = record("8.2.0", "/test/php-8.2.0", "2024-01-01", None);
    let metadata2 = record("8.2.0", "/test/php-8.2.0-updated", "2024-01-02", None);

    state.add_version("8.2.0".to_string(), metadata1);
    state.add_version("8.2.0".to_string(), metadata2.clone());

    assert_eq!(state.installed_versions.len(), 1);
    assert_eq!(state.get_metadata("8.2.0"), Some(&metadata2));
}

#[test]
fn test_state_remove_version() {
    let mut state = PhpState::default();
    let metadata = record("8.2.0", "/test/php-8.2.0", "2024-01-01", None);

    state.add_version("8.2.0".to_string(), metadata);
    state.set_active("8.2.0".to_string());
    state.remove_version("8.2.0");

    assert!(!state.installed_versions.contains(&"8.2.0".to_string()));
    assert!(state.get_metadata("8.2.0").is_none());
    assert_eq!(state.active_version, None);
}

#[test]
fn test_state_set_active() {
    let mut state = PhpState::default();

    state.set_active("8.2.0".to_string());
    assert_eq!(state.active_version, Some("8.2.0".to_string()));
    assert_eq!(state.last_known_good, None);

    state.set_active("8.3.0".to_string());
    assert_eq!(state.active_version, Some("8.3.0".to_string()));
    assert_eq!(state.last_known_good, Some("8.2.0".to_string()));
}

#[test]
fn test_state_get_metadata() {
    let mut state = PhpState::default();
    let metadata = record("8.2.0", "/test/php-8.2.0", "2024-01-01", Some("abc123"));

    state.add_version("8.2.0".to_string(), metadata.clone());

    assert_eq!(state.get_metadata("8.2.0"), Some(&metadata));
    assert_eq!(state.get_metadata("8.3.0"), None);
}

#[test]
fn test_state_remove_active_version() {
    let mut state = PhpState::default();
    let metadata1 = record("8.2.0", "/test/php-8.2.0", "2024-01-01", None);
    let metadata2 = record("8.1.0", "/test/php-8.1.0", "2024-01-01", None);

    state.add_version("8.1.0".to_string(), metadata2);
    state.set_active("8.1.0".to_string());
    state.add_version("8.2.0".to_string(), metadata1);
    state.set_active("8.2.0".to_string());

    state.remove_version("8.2.0");
    assert_eq!(state.active_version, Some("8.1.0".to_string()));
}

#[test]
fn test_state_default_public_api() {
    let state = PhpState::default();
    assert!(state.installed_versions.is_empty());
    assert_eq!(state.active_version, None);
    assert_eq!(state.last_known_good, None);
    assert!(state.install_metadata.is_empty());
}

#[test]
fn test_state_add_version_public_api() {
    let mut state = PhpState::default();
    let metadata = record("8.2.0", "/test/php-8.2.0", "2024-01-01", Some("abc123"));

    state.add_version("8.2.0".to_string(), metadata.clone());

    assert_eq!(state.installed_versions.len(), 1);
    assert!(state.installed_versions.contains(&"8.2.0".to_string()));
    assert_eq!(state.get_metadata("8.2.0"), Some(&metadata));
}

#[test]
fn test_state_remove_version_public_api() {
    let mut state = PhpState::default();
    let metadata = record("8.2.0", "/test/php-8.2.0", "2024-01-01", None);

    state.add_version("8.2.0".to_string(), metadata);
    state.remove_version("8.2.0");

    assert!(!state.installed_versions.contains(&"8.2.0".to_string()));
    assert!(state.get_metadata("8.2.0").is_none());
}

#[test]
fn test_state_set_active_public_api() {
    let mut state = PhpState::default();

    state.set_active("8.2.0".to_string());
    assert_eq!(state.active_version, Some("8.2.0".to_string()));
    assert_eq!(state.last_known_good, None);

    state.set_active("8.3.0".to_string());
    assert_eq!(state.active_version, Some("8.3.0".to_string()));
    assert_eq!(state.last_known_good, Some("8.2.0".to_string()));
}

#[test]
fn test_state_get_metadata_public_api() {
    let mut state = PhpState::default();
    let metadata = record("8.2.0", "/test/php-8.2.0", "2024-01-01", Some("abc123"));

    state.add_version("8.2.0".to_string(), metadata.clone());

    assert_eq!(state.get_metadata("8.2.0"), Some(&metadata));
    assert_eq!(state.get_metadata("8.3.0"), None);
}

#[test]
fn removing_another_version_keeps_the_active_one() {
    let mut state = PhpState::default();
    state.add_version("8.1.0-ts".to_string(), record("8.1.0-ts", "/v/php-8.1.0-ts", "1", None));
    state.add_version("8.2.0-ts".to_string(), record("8.2.0-ts", "/v/php-8.2.0-ts", "2", None));
    state.set_active("8.2.0-ts".to_string());
    state.remove_version("8.1.0-ts");
    assert_eq!(state.active_version, Some("8.2.0-ts".to_string()));
    assert_eq!(state.installed_versions, vec!["8.2.0-ts".to_string()]);
}

#[test]
fn removing_the_active_version_is_refused_and_changes_nothing() {
    let mut state = PhpState::default();
    state.add_version("8.2.0-nts".to_string(), record("8.2.0-nts", "/v/php-8.2.0-nts", "1", None));
    state.set_active("8.2.0-nts".to_string());
    let plan = RemovalPlan { dir: "/v/php-8.2.0-nts".to_string(), key: "8.2.0-nts".to_string() };
    let r = commit_removal(&mut state, &plan, true);
    assert_eq!(r, Err(LifecycleError::ActiveVersionInUse));
    assert_eq!(state.installed_versions, vec!["8.2.0-nts".to_string()]);
    assert_eq!(state.active_version, Some("8.2.0-nts".to_string()));
    assert!(state.get_metadata("8.2.0-nts").is_some());
}

#[test]
fn removing_a_missing_install_is_not_installed() {
    let mut state = PhpState::default();
    let plan = RemovalPlan { dir: "/v/php-8.2.0-ts".to_string(), key: "8.2.0-ts".to_string() };
    assert_eq!(commit_removal(&mut state, &plan, false), Err(LifecycleError::NotInstalled));
}

#[test]
fn committed_removal_drops_the_record() {
    let mut state = PhpState::default();
    state.add_version("8.2.0-ts".to_string(), record("8.2.0-ts", "/v/php-8.2.0-ts", "1", None));
    state.add_version("8.3.0-ts".to_string(), record("8.3.0-ts", "/v/php-8.3.0-ts", "1", None));
    state.set_active("8.3.0-ts".to_string());
    let plan = RemovalPlan { dir: "/v/php-8.2.0-ts".to_string(), key: "8.2.0-ts".to_string() };
    assert_eq!(commit_removal(&mut state, &plan, true), Ok(()));
    assert_eq!(state.installed_versions, vec!["8.3.0-ts".to_string()]);
    assert!(state.get_metadata("8.2.0-ts").is_none());
    assert!(state.get_metadata("8.3.0-ts").is_some());
}
