//! Deployment agent core: the decisions behind resumable artifact download,
//! crash-safe staging, port-based process discovery and version-driven upgrades.
//!
//! Everything here works on plain values. Reading files, talking to the
//! network and spawning processes are left to the caller, which feeds what it
//! observed into these functions and carries out what they decide.

pub mod ask;
pub mod command;
pub mod config;
pub mod download_config;
pub mod http;
pub mod installer_config;
pub mod jar;
pub mod util;
