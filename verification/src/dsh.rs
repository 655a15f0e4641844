//! Managed dsh: versions on disk, integrity, registry and upgrades.
pub mod install;
pub mod integrity;
pub mod registry;
pub mod upgrade;
pub mod version;
