//! Verified core of a desktop DNS manager: validation, command construction,
//! output parsing and the decision logic around them.
pub mod text;
pub mod errors;
pub mod validation;
pub mod models;
pub mod config;
pub mod commands;
pub mod command_runner;
pub mod elevation;
pub mod platform;
pub mod process_watcher;
pub mod dns;
pub mod diagnostics;
pub mod state;
pub mod launch;

pub use state::AppState;
