//! Lifecycle management of installed PHP builds: version identifiers, the
//! durable installation state, install/remove/switch decisions, the download
//! cache's checks and the activation of one build on the user's PATH.
//!
//! The decisions are verified functions of plain values; performing the
//! actions they call for (disk, network, registry) is left to the caller.

pub mod cache;
pub mod commands;
pub mod config;
pub mod discovery;
pub mod error;
pub mod install;
pub mod listing;
pub mod manager;
pub mod platform;
pub mod provider;
pub mod state;
pub mod text;
pub mod update;
pub mod version;

pub use platform::{get_current_path, get_path_env_var, get_php_executable_path};
pub use provider::VersionInfo;
pub use state::{InstallMetadata, PhpState};
pub use version::PhpVersion;
