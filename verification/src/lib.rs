//! Identity configuration for a version-control tool: named profiles
//! (name/email pairs), a model of the tool's global configuration, a
//! line-oriented backup/restore codec, and the installer dispatch policy.

pub mod codec;
pub mod config;
pub mod errors;
pub mod installer;
pub mod kv;
pub mod store;
pub mod text;

pub use codec::{backup_config, restore_config};
pub use config::{configure_git, ConfigState};
pub use errors::GitError;
pub use installer::{install_after_probe, install_argv, install_start, interpret_run,
    is_git_installed, probe_argv, HostOs, InstallStep, Manager, ProbeOutcome};
pub use store::{create_profile, load_profiles, use_profile, GitProfile, ProfileRecord,
    ProfileStore, StoreFile};
