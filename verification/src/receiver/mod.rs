//! The receiving side: it alerts the user and shows whether the watcher is there.

pub mod config;
pub mod console;
pub mod link;
pub mod tray;
