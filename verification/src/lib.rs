//! The decisions behind a screen watcher and its notification receiver.

pub mod clock;
pub mod decimal;
pub mod frame;
pub mod monitor;
pub mod receiver;
pub mod wire;
