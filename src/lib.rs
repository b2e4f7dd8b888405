//! Mounting native workspaces into a devcontainer VM's single shared directory.
//!
//! Each workspace gets a stably named bind mount inside the relay directory; the engines
//! (`up`, `down`, `exec`, `clean`) decide from what was observed of the mount table, the
//! filesystem and the container engine, and say which step comes next. Running programs,
//! reading files and prompting are left to the caller.

pub mod categorize;
pub mod clean;
pub mod cmd;
pub mod colima;
pub mod docker;
pub mod doctor;
pub mod down;
pub mod engine;
pub mod exec;
pub mod exit_codes;
pub mod format;
pub mod image;
pub mod jsonc;
pub mod mount_table;
pub mod naming;
pub mod network_mode;
pub mod platform;
pub mod progress;
pub mod relay;
pub mod status;
pub mod text;
pub mod up;
pub mod workspace;
