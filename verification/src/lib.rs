//! Verified core of the o324 time-tracking daemon.
//!
//! The library holds the daemon's domain model (tasks, activities, prefix
//! index nodes), the decisions that the daemon takes around its database and
//! its window tracker, and the small pure algorithms it relies on. Everything
//! that touches the disk, the D-Bus session or the window system lives in the
//! application crate, which hands plain values to these functions.
pub mod text;
pub mod config;
pub mod entities;
pub mod storage;
pub mod common;
pub mod repositories;
pub mod services;
pub mod dto;
pub mod dbus_interface;
pub mod status;
pub mod window;
