use phpvm::config::{
    get_base_directory, get_config_path, get_log_path, get_state_path, Config, ProviderConfig,
};

#[test]
fn test_config_default() {
    let config = Config::default();
    assert!(config.install_dir.ends_with("versions"));
    assert!(config.download_cache.ends_with("cache"));
    assert_eq!(config.active_version, None);
    assert_eq!(config.providers.len(), 1);
    assert_eq!(config.providers[0].name, "official");
}

#[test]
fn test_get_base_directory() {
    let base = get_base_directory();
    assert!(base.contains("phpvm"));
}

#[test]
fn test_get_config_path() {
    let config_path = get_config_path();
    assert!(config_path.ends_with("config.json"));
    assert!(config_path.contains("phpvm"));
}

#[test]
fn test_get_state_path() {
    let state_path = get_state_path();
    assert!(state_path.ends_with("state.json"));
    assert!(state_path.contains("phpvm"));
}

#[test]
fn test_get_log_path() {
    let log_path = get_log_path();
    assert!(log_path.ends_with("phpvm.log"));
    assert!(log_path.contains("phpvm"));
    assert!(log_path.contains("logs"));
}

#[test]
fn test_provider_config() {
    let provider = ProviderConfig {
        name: "test".to_string(),
        url: "https://example.com".to_string(),
        verify_checksum: true,
    };

    assert_eq!(provider.name, "test");
    assert_eq!(provider.url, "https://example.com");
    assert!(provider.verify_checksum);
}

#[test]
fn test_config_default_public_api() {
    let config = Config::default();
    assert!(config.install_dir.ends_with("versions"));
    assert!(config.download_cache.ends_with("cache"));
    assert_eq!(config.active_version, None);
    assert_eq!(config.providers.len(), 1);
}

#[test]
fn test_provider_config_public_api() {
    let provider = ProviderConfig {
        name: "test".to_string(),
        url: "https://example.com".to_string(),
        verify_checksum: true,
    };

    assert_eq!(provider.name, "test");
    assert_eq!(provider.url, "https://example.com");
    assert!(provider.verify_checksum);
}

#[test]
fn default_config_below_a_base() {
    let config = Config::with_base("/home/u/.local/share/phpvm");
    assert_eq!(config.install_dir, "/home/u/.local/share/phpvm/versions");
    assert_eq!(config.download_cache, "/home/u/.local/share/phpvm/cache");
    assert_eq!(config.providers[0].url, "https://windows.php.net/downloads/releases/");
}

#[test]
fn base_directory_without_local_data_dir() {
    assert_eq!(phpvm::config::base_directory_in(None), "./phpvm");
    assert_eq!(phpvm::config::base_directory_in(Some("/data/")), "/data/phpvm");
}
