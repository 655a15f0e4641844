//! Verified core of the DeepSeek Harness launcher.
pub mod text;
pub mod versions;
pub mod mirrors;
pub mod error;
pub mod cli_shim;
pub mod host;
pub mod logging;
pub mod state;
pub mod dsh;
pub mod commands;
