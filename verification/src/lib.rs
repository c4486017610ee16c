//! Inventory of launchd services: definitions found on disk are reconciled
//! with the live state that the service manager reports, and the resulting
//! registry is queried by name.

pub mod angel;
pub mod cli;
pub mod commands;
pub mod config;
pub mod daemon;
pub mod error;
pub mod launchctl;
pub mod merge;
pub mod names;
pub mod output;
pub mod parser;
pub mod path;
pub mod pattern;
pub mod scan;
pub mod styles;
pub mod text;
pub mod types;
