//! The unified window data model and the backend contract.
//!
//! Every backend normalizes its native window state into
//! [`WindowInfo`] records and derives toggle *plans*: sequences of
//! native requests that the I/O layer then sends to the display
//! server. The [`WindowManagerBackend`] trait states, for any backend,
//! what listing returns and which plan a toggle produces.

use vstd::prelude::*;

use crate::error::EngineError;
use crate::x11::{EwmhRequest, X11Manager};
use crate::wayland::{WaylandManager, WaylandRequest};

verus! {

/// One top-level application window, normalized across backends.
///
/// `id` is the native protocol id rendered in decimal; it is unique
/// within one backend session and not stable across backends or
/// restarts. `icon` carries the window class / app id, from which the
/// host resolves a themed icon.
#[derive(Debug, Clone, PartialEq)]
pub struct WindowInfo {
    pub id: String,
    pub title: String,
    pub is_minimized: bool,
    pub icon: String,
    pub demands_attention: Option<bool>,
}

/// The mathematical model of a [`WindowInfo`]: the same record over
/// character sequences.
pub ghost struct WindowInfoV {
    pub id: Seq<char>,
    pub title: Seq<char>,
    pub is_minimized: bool,
    pub icon: Seq<char>,
    pub demands_attention: Option<bool>,
}

impl View for WindowInfo {
    type V = WindowInfoV;

    open spec fn view(&self) -> WindowInfoV {
        WindowInfoV {
            id: self.id@,
            title: self.title@,
            is_minimized: self.is_minimized,
            icon: self.icon@,
            demands_attention: self.demands_attention,
        }
    }
}

/// The views of a sequence of records.
pub open spec fn views_of(s: Seq<WindowInfo>) -> Seq<WindowInfoV> {
    s.map_values(|w: WindowInfo| w@)
}

/// A toggle plan: the native requests the I/O layer must send.
#[derive(Debug, Clone)]
pub enum TogglePlan {
    Ewmh(Vec<EwmhRequest>),
    Wayland(Vec<WaylandRequest>),
}

/// The model of a toggle plan.
pub ghost enum TogglePlanV {
    Ewmh(Seq<EwmhRequest>),
    Wayland(Seq<WaylandRequest>),
}

impl View for TogglePlan {
    type V = TogglePlanV;

    open spec fn view(&self) -> TogglePlanV {
        match self {
            TogglePlan::Ewmh(v) => TogglePlanV::Ewmh(v@),
            TogglePlan::Wayland(v) => TogglePlanV::Wayland(v@),
        }
    }
}

/// The model of a toggle result.
pub open spec fn plan_result_view(r: Result<TogglePlan, EngineError>) -> Result<
    TogglePlanV,
    EngineError,
> {
    match r {
        Ok(p) => Ok(p@),
        Err(e) => Err(e),
    }
}

/// What any window backend owes its callers: listing returns exactly
/// the records its model declares visible, and toggling returns
/// exactly the plan its model derives for the given id string.
pub trait WindowManagerBackend: Sized {
    /// The backend's state is internally consistent (ids unique).
    spec fn inv(&self) -> bool;

    /// The records a listing must return, in order.
    spec fn visible_windows(&self) -> Seq<WindowInfoV>;

    /// The plan (or error) a toggle of this id string must produce.
    spec fn toggle_plan_spec(&self, id: Seq<char>) -> Result<TogglePlanV, EngineError>;

    /// List the currently visible windows.
    fn get_window_list(&self) -> (r: Result<Vec<WindowInfo>, EngineError>)
        requires
            self.inv(),
        ensures
            r matches Ok(v) && views_of(v@) == self.visible_windows(),
    ;

    /// Derive the toggle plan for the window named by `win_id`.
    fn toggle_window(&self, win_id: &str) -> (r: Result<TogglePlan, EngineError>)
        requires
            self.inv(),
        ensures
            plan_result_view(r) == self.toggle_plan_spec(win_id@),
    ;
}

/// The one active backend of a session, tagged by protocol family.
pub enum WindowBackend {
    X11(X11Manager),
    Wayland(WaylandManager),
}

impl WindowManagerBackend for WindowBackend {
    open spec fn inv(&self) -> bool {
        match self {
            WindowBackend::X11(m) => m.inv(),
            WindowBackend::Wayland(m) => m.inv(),
        }
    }

    open spec fn visible_windows(&self) -> Seq<WindowInfoV> {
        match self {
            WindowBackend::X11(m) => m.visible_windows(),
            WindowBackend::Wayland(m) => m.visible_windows(),
        }
    }

    open spec fn toggle_plan_spec(&self, id: Seq<char>) -> Result<TogglePlanV, EngineError> {
        match self {
            WindowBackend::X11(m) => m.toggle_plan_spec(id),
            WindowBackend::Wayland(m) => m.toggle_plan_spec(id),
        }
    }

    fn get_window_list(&self) -> (r: Result<Vec<WindowInfo>, EngineError>) {
        match self {
            WindowBackend::X11(m) => m.get_window_list(),
            WindowBackend::Wayland(m) => m.get_window_list(),
        }
    }

    fn toggle_window(&self, win_id: &str) -> (r: Result<TogglePlan, EngineError>) {
        match self {
            WindowBackend::X11(m) => m.toggle_window(win_id),
            WindowBackend::Wayland(m) => m.toggle_window(win_id),
        }
    }
}

/// The session's window manager: exactly one backend, chosen at
/// startup, behind the common contract.
pub struct WindowManager<B: WindowManagerBackend> {
    pub backend: B,
}

impl<B: WindowManagerBackend> WindowManager<B> {
    /// The manager is consistent when its backend is.
    pub open spec fn inv(&self) -> bool {
        self.backend.inv()
    }

    /// Wrap a backend.
    pub fn new(backend: B) -> (r: Self)
        ensures
            r.backend == backend,
    {
        WindowManager { backend }
    }

    /// List the currently visible windows of the active backend.
    pub fn get_window_list(&self) -> (r: Result<Vec<WindowInfo>, EngineError>)
        requires
            self.inv(),
        ensures
            r matches Ok(v) && views_of(v@) == self.backend.visible_windows(),
    {
        self.backend.get_window_list()
    }

    /// Derive the toggle plan for the window named by `win_id`.
    pub fn toggle_window(&self, win_id: &str) -> (r: Result<TogglePlan, EngineError>)
        requires
            self.inv(),
        ensures
            plan_result_view(r) == self.backend.toggle_plan_spec(win_id@),
    {
        self.backend.toggle_window(win_id)
    }
}

/// Listing is idempotent: two listings of the same backend state
/// return the same records (queries re-derive from state and change
/// nothing).
pub proof fn lemma_list_idempotent<B: WindowManagerBackend>(a: B, b: B)
    requires
        a == b,
    ensures
        a.visible_windows() == b.visible_windows(),
{
}

} // verus!
