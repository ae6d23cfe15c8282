//! Desktop session inventory-and-control engine.
//!
//! The library discovers top-level application windows and system-tray
//! status items across several Linux session protocols (X11/EWMH,
//! Wayland foreign-toplevel management, KDE Plasma window management,
//! and the freedesktop StatusNotifierItem tray protocol), normalizes
//! them into one data model, plans window visibility toggles, and
//! tracks live tray-item state.
//!
//! All protocol I/O lives outside this crate: callers feed the engine
//! plain snapshots and events read from the wire, and the engine's
//! verified logic derives records, filter decisions, toggle plans and
//! notifications from them.

pub mod error;
pub mod icon;
pub mod text;
pub mod numstr;
pub mod window;
pub mod x11;
pub mod wayland;
pub mod selector;
pub mod systray;
pub mod tray;
pub mod listener;
