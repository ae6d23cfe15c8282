//! The X11/EWMH window backend model.
//!
//! The I/O layer reads each client-list window's properties into an
//! [`X11WindowProps`] snapshot and hands the whole snapshot to
//! [`X11Manager`]. Listing applies the visibility filter and maps the
//! survivors to records; toggling is a three-state decision over the
//! snapshot that yields the exact `ClientMessage` sequence to send, per
//! the EWMH convention. The window manager is trusted to honor the
//! requests; state read immediately after a toggle may be stale until a
//! `PropertyNotify` arrives.

use vstd::prelude::*;

use crate::error::EngineError;
use crate::numstr::{dec_chars_of, dec_val, is_dec_string, parse_u32_dec, u32_to_dec};
use crate::text::{contains_ci, spec_contains_ci};
use crate::window::{
    views_of, TogglePlan, TogglePlanV, WindowInfo, WindowInfoV,
    WindowManagerBackend,
};

verus! {

/// The EWMH window type of a window, from `_NET_WM_WINDOW_TYPE`.
///
/// `Normal` stands for any type atom the filter does not recognize.
#[derive(Debug, Clone, Copy, PartialEq, Eq, Structural)]
pub enum X11WindowType {
    Normal,
    Dialog,
    Dock,
    Desktop,
    Toolbar,
    Menu,
    Splash,
    Utility,
    Tooltip,
    Notification,
    DropdownMenu,
    PopupMenu,
}

/// Whether a window type excludes the window from listings: every
/// recognized type but `Normal` and `Dialog` belongs to the shell, not
/// to the task list.
pub open spec fn is_filtered_type(t: X11WindowType) -> bool {
    !(t is Normal || t is Dialog)
}

/// Some type in the sequence is a filtered one.
pub open spec fn has_filtered_type(ts: Seq<X11WindowType>) -> bool {
    exists|j: int| 0 <= j < ts.len() && is_filtered_type(ts[j])
}

/// One window's properties, as read from the server in one pass.
#[derive(Debug, Clone)]
pub struct X11WindowProps {
    /// The native window id (XID).
    pub id: u32,
    /// The title, from `_NET_WM_NAME` with a `WM_NAME` fallback.
    pub title: String,
    /// The first nonempty segment of `WM_CLASS`.
    pub class: String,
    /// The override-redirect attribute.
    pub override_redirect: bool,
    /// All `_NET_WM_WINDOW_TYPE` atoms, decoded.
    pub window_types: Vec<X11WindowType>,
    /// `_NET_WM_STATE` contains `_NET_WM_STATE_HIDDEN`.
    pub hidden: bool,
    /// `_NET_WM_STATE` contains `_NET_WM_STATE_SKIP_TASKBAR`.
    pub skip_taskbar: bool,
    /// `_NET_WM_STATE` contains `_NET_WM_STATE_DEMANDS_ATTENTION`.
    pub demands_attention: bool,
}

/// The class-name deny list: a window whose class contains any of
/// these (ASCII case-insensitively) belongs to a known shell, panel or
/// dock application and is never listed.
pub open spec fn x11_class_denied(c: Seq<char>) -> bool {
    spec_contains_ci(c, "vpanel"@) || spec_contains_ci(c, "tauri"@) || spec_contains_ci(
        c,
        "trayer"@,
    ) || spec_contains_ci(c, "plank"@) || spec_contains_ci(c, "docky"@) || spec_contains_ci(
        c,
        "cairo-dock"@,
    ) || spec_contains_ci(c, "tint2"@) || spec_contains_ci(c, "polybar"@) || spec_contains_ci(
        c,
        "lemonbar"@,
    ) || spec_contains_ci(c, "vmenu"@) || spec_contains_ci(c, "vasak-control-center"@)
}

/// Match a class name against the deny list.
pub fn class_denied(class: &str) -> (r: bool)
    ensures
        r == x11_class_denied(class@),
{
    contains_ci(class, "vpanel") || contains_ci(class, "tauri") || contains_ci(class, "trayer")
        || contains_ci(class, "plank") || contains_ci(class, "docky") || contains_ci(
        class,
        "cairo-dock",
    ) || contains_ci(class, "tint2") || contains_ci(class, "polybar") || contains_ci(
        class,
        "lemonbar",
    ) || contains_ci(class, "vmenu") || contains_ci(class, "vasak-control-center")
}

/// The visibility filter: a window is listed unless it is
/// override-redirect, carries a shell window type, asks to be skipped
/// by taskbars, or matches the class deny list. The four checks are
/// independent; any one excludes the window.
pub open spec fn should_show_spec(p: X11WindowProps) -> bool {
    &&& !p.override_redirect
    &&& !has_filtered_type(p.window_types@)
    &&& !p.skip_taskbar
    &&& !x11_class_denied(p.class@)
}

/// Apply the visibility filter to one window's properties.
pub fn should_show_window(p: &X11WindowProps) -> (r: bool)
    ensures
        r == should_show_spec(*p),
{
    if p.override_redirect {
        return false;
    }
    let mut j: usize = 0;
    while j < p.window_types.len()
        invariant
            j <= p.window_types@.len(),
            forall|k: int| 0 <= k < j ==> !is_filtered_type(p.window_types@[k]),
        decreases p.window_types@.len() - j,
    {
        let t = p.window_types[j];
        if !(t == X11WindowType::Normal || t == X11WindowType::Dialog) {
            return false;
        }
        j += 1;
    }
    if p.skip_taskbar {
        return false;
    }
    if class_denied(&p.class) {
        return false;
    }
    true
}

/// The record a snapshot entry maps to.
pub open spec fn record_view_of(p: X11WindowProps) -> WindowInfoV {
    WindowInfoV {
        id: dec_chars_of(p.id as nat),
        title: p.title@,
        is_minimized: p.hidden,
        icon: p.class@,
        demands_attention: Some(p.demands_attention),
    }
}

/// The records a snapshot yields: the filter's survivors, in client
/// list order.
pub open spec fn x11_list_view(s: Seq<X11WindowProps>) -> Seq<WindowInfoV>
    decreases s.len(),
{
    if s.len() == 0 {
        Seq::empty()
    } else {
        x11_list_view(s.drop_last()) + if should_show_spec(s.last()) {
            seq![record_view_of(s.last())]
        } else {
            Seq::empty()
        }
    }
}

/// One EWMH state mutation direction, the first datum of a
/// `_NET_WM_STATE` client message.
#[derive(Debug, Clone, Copy, PartialEq, Eq, Structural)]
pub enum StateAction {
    Remove,
    Add,
}

/// The EWMH state property a toggle plan manipulates.
#[derive(Debug, Clone, Copy, PartialEq, Eq, Structural)]
pub enum StateProp {
    Hidden,
    DemandsAttention,
}

/// One `ClientMessage` the I/O layer must send to the root window with
/// substructure-redirect and substructure-notify masks.
#[derive(Debug, Clone, Copy, PartialEq, Eq, Structural)]
pub enum EwmhRequest {
    /// A `_NET_WM_STATE` change request.
    ChangeState { window: u32, action: StateAction, prop: StateProp },
    /// A `_NET_ACTIVE_WINDOW` request with source indication
    /// "application" and the current time.
    Activate { window: u32 },
}

/// The three-state toggle decision for a window in the given state:
/// hidden windows are unhidden, pulsed for attention and activated;
/// the focused window is hidden; any other window is activated, with a
/// stale demands-attention flag cleared first.
pub open spec fn toggle_requests(w: u32, hidden: bool, focused: bool, attention: bool) -> Seq<
    EwmhRequest,
> {
    if hidden {
        seq![
            (EwmhRequest::ChangeState { window: w, action: StateAction::Remove, prop: StateProp::Hidden }),
            (EwmhRequest::ChangeState {
                window: w,
                action: StateAction::Add,
                prop: StateProp::DemandsAttention,
            }),
            (EwmhRequest::Activate { window: w }),
            (EwmhRequest::ChangeState {
                window: w,
                action: StateAction::Remove,
                prop: StateProp::DemandsAttention,
            }),
        ]
    } else if focused {
        seq![
            (EwmhRequest::ChangeState { window: w, action: StateAction::Add, prop: StateProp::Hidden }),
        ]
    } else if attention {
        seq![
            (EwmhRequest::ChangeState {
                window: w,
                action: StateAction::Remove,
                prop: StateProp::DemandsAttention,
            }),
            (EwmhRequest::Activate { window: w }),
        ]
    } else {
        seq![(EwmhRequest::Activate { window: w })]
    }
}

/// There is a snapshot entry with this native id.
pub open spec fn has_window(s: Seq<X11WindowProps>, w: u32) -> bool {
    exists|j: int| 0 <= j < s.len() && s[j].id == w
}

/// The index of the entry with this native id (unique under `inv`).
pub open spec fn window_index_of(s: Seq<X11WindowProps>, w: u32) -> int {
    choose|j: int| 0 <= j < s.len() && s[j].id == w
}

/// The X11 backend: the latest property snapshot, re-read from the
/// server before each query, plus the active window at snapshot time.
pub struct X11Manager {
    /// One entry per `_NET_CLIENT_LIST` window, in list order.
    pub windows: Vec<X11WindowProps>,
    /// The `_NET_ACTIVE_WINDOW` value, if any.
    pub active_window: Option<u32>,
}

impl X11Manager {
    /// Native ids are unique within the snapshot.
    pub open spec fn wf(&self) -> bool {
        forall|j: int, k: int|
            0 <= j < k < self.windows@.len() ==> self.windows@[j].id != self.windows@[k].id
    }

    /// An empty backend, before the first snapshot.
    pub fn new() -> (r: Self)
        ensures
            r.windows@.len() == 0,
            r.active_window is None,
            r.wf(),
    {
        X11Manager { windows: Vec::new(), active_window: None }
    }

    /// Replace the snapshot with freshly read properties.
    pub fn ingest(&mut self, windows: Vec<X11WindowProps>, active_window: Option<u32>)
        requires
            forall|j: int, k: int|
                0 <= j < k < windows@.len() ==> windows@[j].id != windows@[k].id,
        ensures
            final(self).windows == windows,
            final(self).active_window == active_window,
            final(self).wf(),
    {
        self.windows = windows;
        self.active_window = active_window;
    }

    /// The entry with the given id, if any.
    fn find_window(&self, w: u32) -> (r: Option<usize>)
        requires
            self.wf(),
        ensures
            r matches Some(i) ==> i < self.windows@.len() && self.windows@[i as int].id == w
                && i == window_index_of(self.windows@, w),
            r is None ==> !has_window(self.windows@, w),
    {
        let mut i: usize = 0;
        while i < self.windows.len()
            invariant
                self.wf(),
                i <= self.windows@.len(),
                forall|k: int| 0 <= k < i ==> self.windows@[k].id != w,
            decreases self.windows@.len() - i,
        {
            if self.windows[i].id == w {
                proof {
                    let c = window_index_of(self.windows@, w);
                    assert(0 <= c < self.windows@.len() && self.windows@[c].id == w);
                }
                return Some(i);
            }
            i += 1;
        }
        None
    }
}

impl WindowManagerBackend for X11Manager {
    open spec fn inv(&self) -> bool {
        self.wf()
    }

    open spec fn visible_windows(&self) -> Seq<WindowInfoV> {
        x11_list_view(self.windows@)
    }

    open spec fn toggle_plan_spec(&self, id: Seq<char>) -> Result<TogglePlanV, EngineError> {
        if !(is_dec_string(id) && dec_val(id) <= u32::MAX) {
            Err(EngineError::InvalidWindowId)
        } else {
            let w = dec_val(id) as u32;
            if !has_window(self.windows@, w) {
                Err(EngineError::WindowNotFound)
            } else {
                let p = self.windows@[window_index_of(self.windows@, w)];
                Ok(
                    TogglePlanV::Ewmh(
                        toggle_requests(
                            w,
                            p.hidden,
                            self.active_window == Some(w),
                            p.demands_attention,
                        ),
                    ),
                )
            }
        }
    }

    fn get_window_list(&self) -> (r: Result<Vec<WindowInfo>, EngineError>) {
        let mut out: Vec<WindowInfo> = Vec::new();
        let mut i: usize = 0;
        while i < self.windows.len()
            invariant
                i <= self.windows@.len(),
                views_of(out@) == x11_list_view(self.windows@.take(i as int)),
            decreases self.windows@.len() - i,
        {
            let p = &self.windows[i];
            let ghost prev = out@;
            if should_show_window(p) {
                let info = WindowInfo {
                    id: u32_to_dec(p.id),
                    title: p.title.clone(),
                    is_minimized: p.hidden,
                    icon: p.class.clone(),
                    demands_attention: Some(p.demands_attention),
                };
                assert(info@ == record_view_of(self.windows@[i as int]));
                out.push(info);
            }
            proof {
                let s = self.windows@;
                assert(s.take(i + 1).drop_last() =~= s.take(i as int));
                assert(s.take(i + 1).last() == s[i as int]);
                if should_show_spec(s[i as int]) {
                    assert(views_of(out@) =~= views_of(prev) + seq![
                        record_view_of(s[i as int]),
                    ]);
                } else {
                    assert(views_of(out@) =~= views_of(prev));
                }
            }
            i += 1;
        }
        proof {
            assert(self.windows@.take(self.windows@.len() as int) =~= self.windows@);
        }
        Ok(out)
    }

    fn toggle_window(&self, win_id: &str) -> (r: Result<TogglePlan, EngineError>) {
        let w = match parse_u32_dec(win_id) {
            Some(w) => w,
            None => {
                return Err(EngineError::InvalidWindowId);
            },
        };
        let i = match self.find_window(w) {
            Some(i) => i,
            None => {
                return Err(EngineError::WindowNotFound);
            },
        };
        let p = &self.windows[i];
        let focused = match self.active_window {
            Some(a) => a == w,
            None => false,
        };
        let mut reqs: Vec<EwmhRequest> = Vec::new();
        if p.hidden {
            reqs.push(
                EwmhRequest::ChangeState {
                    window: w,
                    action: StateAction::Remove,
                    prop: StateProp::Hidden,
                },
            );
            reqs.push(
                EwmhRequest::ChangeState {
                    window: w,
                    action: StateAction::Add,
                    prop: StateProp::DemandsAttention,
                },
            );
            reqs.push(EwmhRequest::Activate { window: w });
            reqs.push(
                EwmhRequest::ChangeState {
                    window: w,
                    action: StateAction::Remove,
                    prop: StateProp::DemandsAttention,
                },
            );
        } else if focused {
            reqs.push(
                EwmhRequest::ChangeState {
                    window: w,
                    action: StateAction::Add,
                    prop: StateProp::Hidden,
                },
            );
        } else {
            if p.demands_attention {
                reqs.push(
                    EwmhRequest::ChangeState {
                        window: w,
                        action: StateAction::Remove,
                        prop: StateProp::DemandsAttention,
                    },
                );
            }
            reqs.push(EwmhRequest::Activate { window: w });
        }
        proof {
            assert(reqs@ =~= toggle_requests(
                w,
                p.hidden,
                self.active_window == Some(w),
                p.demands_attention,
            ));
        }
        Ok(TogglePlan::Ewmh(reqs))
    }
}

/// The unhide transition: toggling a hidden window plans exactly the
/// unhide + attention pulse + activate sequence, and in particular
/// never asks to add the hidden state.
pub proof fn lemma_toggle_unhides_hidden(w: u32, focused: bool, attention: bool)
    ensures
        toggle_requests(w, true, focused, attention) =~= seq![
            (EwmhRequest::ChangeState {
                window: w,
                action: StateAction::Remove,
                prop: StateProp::Hidden,
            }),
            (EwmhRequest::ChangeState {
                window: w,
                action: StateAction::Add,
                prop: StateProp::DemandsAttention,
            }),
            (EwmhRequest::Activate { window: w }),
            (EwmhRequest::ChangeState {
                window: w,
                action: StateAction::Remove,
                prop: StateProp::DemandsAttention,
            }),
        ],
        forall|k: int|
            0 <= k < toggle_requests(w, true, focused, attention).len()
                ==> toggle_requests(w, true, focused, attention)[k] != (EwmhRequest::ChangeState {
                window: w,
                action: StateAction::Add,
                prop: StateProp::Hidden,
            }),
{
}

/// Every record a listing returns comes from a snapshot entry that
/// passed the visibility filter; in particular no filtered window
/// (dock-typed, skip-taskbar, override-redirect or deny-listed) ever
/// contributes a record.
pub proof fn lemma_listed_records_passed_filter(s: Seq<X11WindowProps>, w: WindowInfoV)
    requires
        x11_list_view(s).contains(w),
    ensures
        exists|j: int|
            0 <= j < s.len() && should_show_spec(s[j]) && w == record_view_of(s[j]),
    decreases s.len(),
{
    if s.len() > 0 {
        let prefix = x11_list_view(s.drop_last());
        if prefix.contains(w) {
            lemma_listed_records_passed_filter(s.drop_last(), w);
            let j = choose|j: int|
                0 <= j < s.drop_last().len() && should_show_spec(s.drop_last()[j]) && w
                    == record_view_of(s.drop_last()[j]);
            assert(s.drop_last()[j] == s[j]);
        } else {
            assert(should_show_spec(s.last()) && w == record_view_of(s.last()));
            assert(s.last() == s[s.len() - 1]);
        }
    }
}

/// Pick a window's title from its name properties: `_NET_WM_NAME`
/// wins when nonempty, the legacy `WM_NAME` is the fallback, and a
/// window with neither gets the empty title.
pub fn pick_title(net_wm_name: Option<String>, wm_name: Option<String>) -> (r: String)
    ensures
        r@ == (match net_wm_name {
            Some(n) if n@.len() > 0 => n@,
            _ => (match wm_name {
                Some(w) if w@.len() > 0 => w@,
                _ => Seq::<char>::empty(),
            }),
        }),
{
    match net_wm_name {
        Some(n) => {
            if n.as_str().unicode_len() > 0 {
                return n;
            }
            match wm_name {
                Some(w) => {
                    if w.as_str().unicode_len() > 0 {
                        w
                    } else {
                        String::new()
                    }
                },
                None => String::new(),
            }
        },
        None => {
            match wm_name {
                Some(w) => {
                    if w.as_str().unicode_len() > 0 {
                        w
                    } else {
                        String::new()
                    }
                },
                None => String::new(),
            }
        },
    }
}

/// There is a NUL byte at or after `from`.
pub open spec fn has_nul(d: Seq<u8>, from: int) -> bool {
    exists|i: int| from <= i < d.len() && d[i] == 0
}

/// The index of the first NUL byte at or after `from`.
pub open spec fn first_nul(d: Seq<u8>, from: int) -> int {
    choose|i: int|
        from <= i < d.len() && d[i] == 0 && (forall|k: int| from <= k < i ==> d[k] != 0)
}

/// Where the segment starting at `from` ends: at the first NUL, or at
/// the end of the data.
pub open spec fn segment_end(d: Seq<u8>, from: int) -> int {
    if has_nul(d, from) {
        first_nul(d, from)
    } else {
        d.len() as int
    }
}

/// The class-name bytes a `WM_CLASS` property yields: the property
/// holds NUL-separated segments (instance name, then class name), and
/// the first nonempty of the first two segments wins; a property with
/// neither yields nothing.
pub open spec fn wm_class_segment_spec(d: Seq<u8>) -> Seq<u8> {
    let e0 = segment_end(d, 0);
    if e0 > 0 {
        d.subrange(0, e0)
    } else if d.len() == 0 {
        Seq::empty()
    } else {
        d.subrange(1, segment_end(d, 1))
    }
}

/// Find the first NUL byte at or after `from`.
fn find_nul(data: &Vec<u8>, from: usize) -> (r: Option<usize>)
    requires
        from <= data@.len(),
    ensures
        r matches Some(i) ==> from <= i < data@.len() && data@[i as int] == 0 && (forall|k: int|
            from <= k < i ==> data@[k] != 0) && i == first_nul(data@, from as int) && has_nul(
            data@,
            from as int,
        ),
        r is None ==> !has_nul(data@, from as int),
{
    let mut i: usize = from;
    while i < data.len()
        invariant
            from <= i <= data@.len(),
            forall|k: int| from <= k < i ==> data@[k] != 0,
        decreases data@.len() - i,
    {
        if data[i] == 0 {
            proof {
                assert(has_nul(data@, from as int));
                let c = first_nul(data@, from as int);
                assert(from <= c < data@.len() && data@[c] == 0 && (forall|k: int|
                    from <= k < c ==> data@[k] != 0));
                if c < i as int {
                    assert(data@[c] != 0);
                }
                if (i as int) < c {
                    assert(data@[i as int] != 0);
                }
            }
            return Some(i);
        }
        i += 1;
    }
    None
}

/// Copy a byte range.
fn bytes_sub(data: &Vec<u8>, from: usize, to: usize) -> (r: Vec<u8>)
    requires
        from <= to <= data@.len(),
    ensures
        r@ == data@.subrange(from as int, to as int),
{
    let mut out: Vec<u8> = Vec::new();
    let mut i: usize = from;
    while i < to
        invariant
            from <= i <= to <= data@.len(),
            out@ == data@.subrange(from as int, i as int),
        decreases to - i,
    {
        out.push(data[i]);
        assert(out@ =~= data@.subrange(from as int, i + 1));
        i += 1;
    }
    out
}

/// Extract the class-name bytes from a raw `WM_CLASS` property.
pub fn wm_class_segment(data: &Vec<u8>) -> (r: Vec<u8>)
    ensures
        r@ == wm_class_segment_spec(data@),
{
    let e0 = match find_nul(data, 0) {
        Some(i) => i,
        None => data.len(),
    };
    if e0 > 0 {
        bytes_sub(data, 0, e0)
    } else if data.len() == 0 {
        Vec::new()
    } else {
        let e1 = match find_nul(data, 1) {
            Some(i) => i,
            None => data.len(),
        };
        bytes_sub(data, 1, e1)
    }
}

/// The root-window events the monitor thread reacts to.
#[derive(Debug, Clone, Copy, PartialEq, Eq, Structural)]
pub enum X11MonitorEvent {
    PropertyNotify,
    CreateNotify,
    DestroyNotify,
    Other,
}

/// Whether a monitored event signals a possible window-list change:
/// property changes and window creation or destruction do, anything
/// else is ignored (coalescing is the bridge's concern, not the
/// backend's).
pub fn event_triggers_notify(e: X11MonitorEvent) -> (r: bool)
    ensures
        r == !(e is Other),
{
    match e {
        X11MonitorEvent::PropertyNotify => true,
        X11MonitorEvent::CreateNotify => true,
        X11MonitorEvent::DestroyNotify => true,
        X11MonitorEvent::Other => false,
    }
}

/// The filter excludes dock windows and deny-listed classes outright:
/// a window whose types include `Dock`, or whose class contains
/// `"tauri"`, never passes.
pub proof fn lemma_filter_excludes_dock_and_denied(p: X11WindowProps)
    ensures
        p.window_types@.contains(X11WindowType::Dock) ==> !should_show_spec(p),
        spec_contains_ci(p.class@, "tauri"@) ==> !should_show_spec(p),
{
    if p.window_types@.contains(X11WindowType::Dock) {
        let j = choose|j: int| 0 <= j < p.window_types@.len() && p.window_types@[j]
            == X11WindowType::Dock;
        assert(is_filtered_type(p.window_types@[j]));
    }
}

} // verus!
