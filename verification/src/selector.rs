//! Backend selection.
//!
//! Exactly one window backend is active for the process lifetime:
//! a Wayland session with a usable window-management protocol wins,
//! X11 is the fallback, and a session with neither is an unrecoverable
//! initialization error. Selection is a pure function of a probed
//! session descriptor; the I/O layer probes the environment and
//! attempts the protocol binds, then hands the outcome here.

use vstd::prelude::*;

use crate::error::EngineError;

verus! {

/// What probing the session found: which displays are reachable and
/// which Wayland window-management protocol a connection could bind.
#[derive(Debug, Clone, Copy, PartialEq, Eq, Structural)]
pub struct SessionDescriptor {
    /// A Wayland display is present and a connection succeeded.
    pub wayland_display: bool,
    /// An X11 display is present.
    pub x11_display: bool,
    /// The compositor advertises `zwlr_foreign_toplevel_manager_v1`.
    pub wlr_available: bool,
    /// The compositor advertises `org_kde_plasma_window_management`.
    pub kde_available: bool,
}

/// The window backend a session supports.
#[derive(Debug, Clone, Copy, PartialEq, Eq, Structural)]
pub enum BackendChoice {
    /// Wayland via wlr foreign-toplevel management.
    WaylandWlr,
    /// Wayland via the KDE Plasma window-management protocol.
    WaylandKde,
    /// X11 via EWMH.
    X11,
}

/// Choose the window backend: Wayland first (wlr preferred over KDE),
/// X11 as the fallback, and `NoSupportedSession` when nothing usable
/// is present. A Wayland display whose compositor offers neither
/// protocol falls back to X11.
pub fn select_backend(d: &SessionDescriptor) -> (r: Result<BackendChoice, EngineError>)
    ensures
        d.wayland_display && d.wlr_available ==> r == Ok::<_, EngineError>(
            BackendChoice::WaylandWlr,
        ),
        d.wayland_display && !d.wlr_available && d.kde_available ==> r == Ok::<_, EngineError>(
            BackendChoice::WaylandKde,
        ),
        !(d.wayland_display && (d.wlr_available || d.kde_available)) && d.x11_display ==> r == Ok::<
            _,
            EngineError,
        >(BackendChoice::X11),
        !(d.wayland_display && (d.wlr_available || d.kde_available)) && !d.x11_display ==> r
            == Err::<BackendChoice, _>(EngineError::NoSupportedSession),
{
    if d.wayland_display && d.wlr_available {
        Ok(BackendChoice::WaylandWlr)
    } else if d.wayland_display && d.kde_available {
        Ok(BackendChoice::WaylandKde)
    } else if d.x11_display {
        Ok(BackendChoice::X11)
    } else {
        Err(EngineError::NoSupportedSession)
    }
}

/// The tray protocol backend a session supports. The tray watcher
/// itself always speaks DBus; this choice covers the legacy
/// XEmbed-style icon listing only.
#[derive(Debug, Clone, Copy, PartialEq, Eq, Structural)]
pub enum TrayBackendChoice {
    Wayland,
    X11,
}

/// Choose the legacy tray backend: Wayland sessions use the (empty)
/// Wayland tray, X11 sessions read the X11 tray selection, others
/// fail.
pub fn select_tray_backend(d: &SessionDescriptor) -> (r: Result<TrayBackendChoice, EngineError>)
    ensures
        d.wayland_display ==> r == Ok::<_, EngineError>(TrayBackendChoice::Wayland),
        !d.wayland_display && d.x11_display ==> r == Ok::<_, EngineError>(TrayBackendChoice::X11),
        !d.wayland_display && !d.x11_display ==> r == Err::<TrayBackendChoice, _>(
            EngineError::NoSupportedSession,
        ),
{
    if d.wayland_display {
        Ok(TrayBackendChoice::Wayland)
    } else if d.x11_display {
        Ok(TrayBackendChoice::X11)
    } else {
        Err(EngineError::NoSupportedSession)
    }
}

} // verus!
