//! What each command decides; running the service manager and talking to
//! the user is left to the caller.

pub mod install;
pub mod list;
pub mod service;
pub mod status;
pub mod uninstall;
