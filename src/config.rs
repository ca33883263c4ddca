//! The manager's configuration and the places of its files.

use crate::platform::{join, join_path};
use vstd::prelude::*;

verus! {

/// One source of builds.
#[derive(Debug, Clone)]
pub struct ProviderConfig {
    pub name: String,
    pub url: String,
    pub verify_checksum: bool,
}

/// Where builds are installed and cached, the active version and the
/// sources of builds. Paths are kept as text.
#[derive(Debug, Clone)]
pub struct Config {
    pub install_dir: String,
    pub active_version: Option<String>,
    pub download_cache: String,
    pub providers: Vec<ProviderConfig>,
}

/// Relies on `dirs::data_local_dir`: the user's local data directory, when
/// the platform has one. It depends on the environment, so nothing is stated
/// of it.
#[verifier::external_body]
fn local_data_dir() -> (r: Option<String>) {
    dirs::data_local_dir().map(|p| p.to_string_lossy().to_string())
}

pub open spec fn base_in(local: Option<Seq<char>>) -> Seq<char> {
    match local {
        Some(d) => join_path(d, "phpvm"@),
        None => join_path("."@, "phpvm"@),
    }
}

/// The manager's base directory below a local data directory, or below the
/// working directory when there is none.
pub fn base_directory_in(local: Option<&str>) -> (r: String)
    ensures
        r@ == base_in(match local {
            Some(d) => Some(d@),
            None => None,
        }),
{
    match local {
        Some(d) => join(d, "phpvm"),
        None => join(".", "phpvm"),
    }
}

/// The manager's base directory on this machine.
pub fn get_base_directory() -> (r: String)
    ensures
        exists|local: Option<Seq<char>>| r@ == base_in(local),
{
    let local = local_data_dir();
    match local {
        Some(d) => base_directory_in(Some(d.as_str())),
        None => base_directory_in(None),
    }
}

pub fn get_config_path() -> (r: String)
    ensures
        exists|local: Option<Seq<char>>| r@ == join_path(base_in(local), "config.json"@),
{
    let base = get_base_directory();
    join(base.as_str(), "config.json")
}

pub fn get_state_path() -> (r: String)
    ensures
        exists|local: Option<Seq<char>>| r@ == join_path(base_in(local), "state.json"@),
{
    let base = get_base_directory();
    join(base.as_str(), "state.json")
}

pub fn get_log_path() -> (r: String)
    ensures
        exists|local: Option<Seq<char>>| r@ == join_path(
            join_path(base_in(local), "logs"@),
            "phpvm.log"@,
        ),
{
    let base = get_base_directory();
    let logs = join(base.as_str(), "logs");
    join(logs.as_str(), "phpvm.log")
}

impl Config {
    /// The default configuration below the base directory `base`: builds in
    /// `versions`, downloads in `cache`, no active version and the official
    /// release server as the one source.
    pub fn with_base(base: &str) -> (r: Config)
        ensures
            r.install_dir@ == join_path(base@, "versions"@),
            r.download_cache@ == join_path(base@, "cache"@),
            r.active_version is None,
            r.providers@.len() == 1,
            r.providers@[0].name@ == "official"@,
            r.providers@[0].url@ == "https://windows.php.net/downloads/releases/"@,
            r.providers@[0].verify_checksum,
    {
        let mut providers: Vec<ProviderConfig> = Vec::new();
        providers.push(
            ProviderConfig {
                name: "official".to_owned(),
                url: "https://windows.php.net/downloads/releases/".to_owned(),
                verify_checksum: true,
            },
        );
        Config {
            install_dir: join(base, "versions"),
            active_version: None,
            download_cache: join(base, "cache"),
            providers,
        }
    }
}

impl Default for Config {
    fn default() -> (r: Config)
        ensures
            exists|local: Option<Seq<char>>|
                r.install_dir@ == join_path(base_in(local), "versions"@) && r.download_cache@
                    == join_path(base_in(local), "cache"@),
            r.active_version is None,
            r.providers@.len() == 1,
            r.providers@[0].name@ == "official"@,
    {
        let base = get_base_directory();
        Config::with_base(base.as_str())
    }
}

} // verus!
