//! Verified core of the deployment tool: configuration model, path and
//! script building, release history, permission rules and terminal/prompt
//! detection. Network, file-system and UI work lives in the application
//! crate and calls into these functions.

pub mod text;
pub mod config;
pub mod scripts;
pub mod ssh;
pub mod deploy;
pub mod history;
pub mod sysinfo;
pub mod terminal;
pub mod backend;
pub mod rollout;
pub mod dirsync;
pub mod frontend;
pub mod mcp;
pub mod tunnel;
pub mod sftp;
pub mod rdp;
pub mod listing;
pub mod events;
pub mod remote_scripts;
pub mod docker;
pub mod procfs;
