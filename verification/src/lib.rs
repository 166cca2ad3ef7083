//! Configuration synchronization engine for three CLI coding assistants.
//!
//! The crate models MCP (tool-server) definitions in one canonical store,
//! converts them to and from each client's native live-file encoding,
//! merges imports without clobbering existing data, and persists everything
//! in a SQLite store with versioned migrations and SQL-text backups.

pub mod app_config;
pub mod config;
pub mod database;
pub mod deeplink;
pub mod errors;
pub mod helpers;
pub mod jsonio;
pub mod laws;
pub mod model;
pub mod provider;
pub mod settings;
pub mod skills;
pub mod speedtest;
pub mod store;
pub mod strutil;
pub mod sync;
pub mod toml_convert;
pub mod tomlio;
pub mod tray;
pub mod validation;
