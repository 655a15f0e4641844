//! The launcher's commands: the decisions and text handling behind each.
pub mod about;
pub mod allow_builds_law;
pub mod bootstrap;
pub mod dsh_install;
pub mod host;
pub mod maintenance;
pub mod node_install;
pub mod plugin_command;
pub mod recovery;
pub mod settings;
