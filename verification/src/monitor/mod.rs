//! The watching side: it looks at a region of the screen and tells the receiver
//! when the region changes.

pub mod backdrop;
pub mod capture;
pub mod config;
pub mod overlay;
pub mod panel;
pub mod pixels;
pub mod screens;
pub mod selector;
pub mod watch;
