//! Verified core of a rofi-like application launcher: fuzzy filtering,
//! desktop-entry and executable collection, window listing, the script and
//! IPC protocols, the frecency cache format and the launcher's key handling.

pub mod text;
pub mod item;
pub mod order;
pub mod search;
pub mod desktop;
pub mod executables;
pub mod window;
pub mod script;
pub mod ipc;
pub mod ctl;
pub mod cache;
pub mod launcher;
pub mod modes;
