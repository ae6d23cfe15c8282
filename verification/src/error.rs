//! Error taxonomy of the engine.
//!
//! Initialization failures, per-operation failures and protocol
//! violations are kept apart so that callers can tell an unrecoverable
//! start-up condition from an error scoped to a single window or icon.

use vstd::prelude::*;

verus! {

/// Everything a query, toggle or codec operation of the engine can fail with.
///
/// `NoSupportedSession` is fatal at initialization; the others are scoped
/// to one call and leave the engine's state unchanged.
#[derive(Debug, Clone, Copy, PartialEq, Eq, Structural)]
pub enum EngineError {
    /// Neither a usable Wayland window-management protocol nor an X11
    /// display is available.
    NoSupportedSession,
    /// A window id string did not parse as a native protocol id.
    InvalidWindowId,
    /// The given id names no currently known window.
    WindowNotFound,
    /// A Wayland toggle was requested but no seat is bound.
    SeatUnavailable,
    /// A raw pixmap buffer does not hold width * height * 4 bytes.
    InvalidPixmapSize { expected: usize, actual: usize },
    /// A pixel buffer was malformed in some other way.
    DecodeError,
}

impl EngineError {
    /// A human-readable description, in place of a `Display` impl.
    pub fn message(&self) -> (s: &'static str)
        ensures
            s@.len() > 0,
    {
        proof {
            reveal_strlit("no supported window system found");
            reveal_strlit("invalid window id");
            reveal_strlit("window not found");
            reveal_strlit("no seat bound for toggling");
            reveal_strlit("pixmap data size mismatch");
            reveal_strlit("malformed pixel buffer");
        }
        match self {
            EngineError::NoSupportedSession => "no supported window system found",
            EngineError::InvalidWindowId => "invalid window id",
            EngineError::WindowNotFound => "window not found",
            EngineError::SeatUnavailable => "no seat bound for toggling",
            EngineError::InvalidPixmapSize { .. } => "pixmap data size mismatch",
            EngineError::DecodeError => "malformed pixel buffer",
        }
    }
}

} // verus!
