//! The Wayland window backend model.
//!
//! A compositor advertising `zwlr_foreign_toplevel_manager_v1` streams
//! per-toplevel property events that this module folds into a map of
//! entries; KDE Plasma's `org_kde_plasma_window_management` is the
//! structurally analogous protocol with its own event set. Only one of
//! the two is bound per session. The wlr protocol batches properties
//! and marks a consistent snapshot with `Done`: entries keep a pending
//! and a committed copy of their fields, and readers see only the
//! committed copy, so no listing ever observes a torn update. KDE
//! events carry whole values and apply immediately.
//!
//! Toggling needs a bound seat and yields the requests the I/O layer
//! must send on the toplevel handle.

use vstd::prelude::*;

use crate::error::EngineError;
use crate::numstr::{dec_chars_of, dec_val, is_dec_string, parse_u32_dec, u32_to_dec};
use crate::text::{contains_ci, spec_contains_ci, str_eq};
use crate::window::{
    views_of, TogglePlan, TogglePlanV, WindowInfo, WindowInfoV,
    WindowManagerBackend,
};

verus! {

/// The app-id deny list: a toplevel whose app id contains any of these
/// (ASCII case-insensitively) belongs to a known shell, panel or dock
/// application and is never listed. Wayland has no window-type or
/// override-redirect concept, so the filter rests on this list alone.
pub open spec fn wayland_app_denied(c: Seq<char>) -> bool {
    spec_contains_ci(c, "vpanel"@) || spec_contains_ci(c, "tauri"@) || spec_contains_ci(
        c,
        "vasak-control-center"@,
    ) || spec_contains_ci(c, "plank"@) || spec_contains_ci(c, "docky"@) || spec_contains_ci(
        c,
        "cairo-dock"@,
    ) || spec_contains_ci(c, "polybar"@) || spec_contains_ci(c, "waybar"@) || spec_contains_ci(
        c,
        "tint2"@,
    ) || spec_contains_ci(c, "plasmashell"@) || spec_contains_ci(c, "krunner"@)
        || spec_contains_ci(c, "systemsettings"@) || spec_contains_ci(c, "kwin"@)
        || spec_contains_ci(c, "plasma-desktop"@)
}

/// Match an app id against the deny list.
pub fn app_denied(app_id: &str) -> (r: bool)
    ensures
        r == wayland_app_denied(app_id@),
{
    contains_ci(app_id, "vpanel") || contains_ci(app_id, "tauri") || contains_ci(
        app_id,
        "vasak-control-center",
    ) || contains_ci(app_id, "plank") || contains_ci(app_id, "docky") || contains_ci(
        app_id,
        "cairo-dock",
    ) || contains_ci(app_id, "polybar") || contains_ci(app_id, "waybar") || contains_ci(
        app_id,
        "tint2",
    ) || contains_ci(app_id, "plasmashell") || contains_ci(app_id, "krunner") || contains_ci(
        app_id,
        "systemsettings",
    ) || contains_ci(app_id, "kwin") || contains_ci(app_id, "plasma-desktop")
}

/// The property fields of one toplevel.
#[derive(Debug)]
pub struct ToplevelFields {
    pub title: String,
    pub app_id: String,
    pub maximized: bool,
    pub minimized: bool,
    pub activated: bool,
    pub fullscreen: bool,
}

/// The model of the fields.
pub ghost struct FieldsV {
    pub title: Seq<char>,
    pub app_id: Seq<char>,
    pub maximized: bool,
    pub minimized: bool,
    pub activated: bool,
    pub fullscreen: bool,
}

impl View for ToplevelFields {
    type V = FieldsV;

    open spec fn view(&self) -> FieldsV {
        FieldsV {
            title: self.title@,
            app_id: self.app_id@,
            maximized: self.maximized,
            minimized: self.minimized,
            activated: self.activated,
            fullscreen: self.fullscreen,
        }
    }
}

/// The empty field set a fresh toplevel starts with.
pub open spec fn empty_fields_v() -> FieldsV {
    FieldsV {
        title: Seq::empty(),
        app_id: Seq::empty(),
        maximized: false,
        minimized: false,
        activated: false,
        fullscreen: false,
    }
}

/// One wlr toplevel: the batch being streamed (`pending`) and the last
/// snapshot marked consistent by `Done` (`committed`, readable once
/// `ready`).
#[derive(Debug)]
pub struct ToplevelEntry {
    pub pending: ToplevelFields,
    pub committed: ToplevelFields,
    pub ready: bool,
}

/// The model of an entry.
pub ghost struct EntryV {
    pub pending: FieldsV,
    pub committed: FieldsV,
    pub ready: bool,
}

impl View for ToplevelEntry {
    type V = EntryV;

    open spec fn view(&self) -> EntryV {
        EntryV { pending: self.pending@, committed: self.committed@, ready: self.ready }
    }
}

/// The entry a fresh `Toplevel` announcement creates.
pub open spec fn empty_entry_v() -> EntryV {
    EntryV { pending: empty_fields_v(), committed: empty_fields_v(), ready: false }
}

/// One event of the wlr foreign-toplevel protocol, as decoded by the
/// I/O layer (the `State` payload already split into native-endian
/// `u32` values).
#[derive(Debug)]
pub enum WlrEvent {
    /// The manager announced a new toplevel.
    Created { id: u32 },
    Title { id: u32, title: String },
    AppId { id: u32, app_id: String },
    /// The full current state array; it replaces, never diffs.
    State { id: u32, states: Vec<u32> },
    /// The preceding batch is consistent.
    Done { id: u32 },
    Closed { id: u32 },
}

/// The model of a wlr event.
pub ghost enum WlrEventV {
    Created { id: u32 },
    Title { id: u32, title: Seq<char> },
    AppId { id: u32, app_id: Seq<char> },
    State { id: u32, states: Seq<u32> },
    Done { id: u32 },
    Closed { id: u32 },
}

impl View for WlrEvent {
    type V = WlrEventV;

    open spec fn view(&self) -> WlrEventV {
        match self {
            WlrEvent::Created { id } => WlrEventV::Created { id: *id },
            WlrEvent::Title { id, title } => WlrEventV::Title { id: *id, title: title@ },
            WlrEvent::AppId { id, app_id } => WlrEventV::AppId { id: *id, app_id: app_id@ },
            WlrEvent::State { id, states } => WlrEventV::State { id: *id, states: states@ },
            WlrEvent::Done { id } => WlrEventV::Done { id: *id },
            WlrEvent::Closed { id } => WlrEventV::Closed { id: *id },
        }
    }
}

/// One window's state under the KDE Plasma protocol: values apply as
/// they arrive; state comes as a bit field.
#[derive(Debug)]
pub struct KdeWindowState {
    pub title: String,
    pub app_id: String,
    pub maximized: bool,
    pub minimized: bool,
    pub activated: bool,
    pub fullscreen: bool,
    pub desktop: i32,
}

/// The model of a KDE window's state.
pub ghost struct KdeStateV {
    pub title: Seq<char>,
    pub app_id: Seq<char>,
    pub maximized: bool,
    pub minimized: bool,
    pub activated: bool,
    pub fullscreen: bool,
    pub desktop: int,
}

impl View for KdeWindowState {
    type V = KdeStateV;

    open spec fn view(&self) -> KdeStateV {
        KdeStateV {
            title: self.title@,
            app_id: self.app_id@,
            maximized: self.maximized,
            minimized: self.minimized,
            activated: self.activated,
            fullscreen: self.fullscreen,
            desktop: self.desktop as int,
        }
    }
}

/// The state a fresh KDE window announcement creates.
pub open spec fn empty_kde_state_v() -> KdeStateV {
    KdeStateV {
        title: Seq::empty(),
        app_id: Seq::empty(),
        maximized: false,
        minimized: false,
        activated: false,
        fullscreen: false,
        desktop: 0,
    }
}

/// One event of the KDE Plasma window-management protocol.
#[derive(Debug)]
pub enum KdeEvent {
    Created { id: u32 },
    TitleChanged { id: u32, title: String },
    AppIdChanged { id: u32, app_id: String },
    /// The full state bit field, with the protocol's own values:
    /// 0x1 active, 0x2 minimized, 0x4 maximized, 0x8 fullscreen.
    StateChanged { id: u32, flags: u32 },
    VirtualDesktopChanged { id: u32, number: i32 },
    Unmapped { id: u32 },
}

/// The model of a KDE event.
pub ghost enum KdeEventV {
    Created { id: u32 },
    TitleChanged { id: u32, title: Seq<char> },
    AppIdChanged { id: u32, app_id: Seq<char> },
    StateChanged { id: u32, flags: u32 },
    VirtualDesktopChanged { id: u32, number: int },
    Unmapped { id: u32 },
}

impl View for KdeEvent {
    type V = KdeEventV;

    open spec fn view(&self) -> KdeEventV {
        match self {
            KdeEvent::Created { id } => KdeEventV::Created { id: *id },
            KdeEvent::TitleChanged { id, title } => KdeEventV::TitleChanged {
                id: *id,
                title: title@,
            },
            KdeEvent::AppIdChanged { id, app_id } => KdeEventV::AppIdChanged {
                id: *id,
                app_id: app_id@,
            },
            KdeEvent::StateChanged { id, flags } => KdeEventV::StateChanged {
                id: *id,
                flags: *flags,
            },
            KdeEvent::VirtualDesktopChanged { id, number } => KdeEventV::VirtualDesktopChanged {
                id: *id,
                number: *number as int,
            },
            KdeEvent::Unmapped { id } => KdeEventV::Unmapped { id: *id },
        }
    }
}

/// Keys of an association list are unique.
pub open spec fn keys_unique<T>(s: Seq<(u32, T)>) -> bool {
    forall|j: int, k: int| 0 <= j < k < s.len() ==> s[j].0 != s[k].0
}

/// Some entry has this key.
pub open spec fn map_has<T>(s: Seq<(u32, T)>, id: u32) -> bool {
    exists|j: int| 0 <= j < s.len() && s[j].0 == id
}

/// The index of the entry with this key (unique under `keys_unique`).
pub open spec fn map_index_of<T>(s: Seq<(u32, T)>, id: u32) -> int {
    choose|j: int| 0 <= j < s.len() && s[j].0 == id
}

/// An entry with key `id` at index `i` pins both membership and the
/// chosen index, since keys are unique.
pub proof fn lemma_key_at<T>(v: Seq<(u32, T)>, id: u32, i: int)
    requires
        keys_unique(v),
        0 <= i < v.len(),
        v[i].0 == id,
    ensures
        map_has(v, id),
        map_index_of(v, id) == i,
{
    assert(map_has(v, id));
    let c = map_index_of(v, id);
    assert(0 <= c < v.len() && v[c].0 == id);
    if c < i {
        assert(v[c].0 != v[i].0);
    }
    if i < c {
        assert(v[i].0 != v[c].0);
    }
}

/// Replacing an entry with one of the same key keeps keys unique.
pub proof fn lemma_unique_update<T>(v: Seq<(u32, T)>, i: int, p: (u32, T))
    requires
        keys_unique(v),
        0 <= i < v.len(),
        p.0 == v[i].0,
    ensures
        keys_unique(v.update(i, p)),
{
    let w = v.update(i, p);
    assert forall|j: int, k: int| 0 <= j < k < w.len() implies w[j].0 != w[k].0 by {
        assert(v[j].0 != v[k].0);
    }
}

/// Appending a fresh key keeps keys unique.
pub proof fn lemma_unique_push<T>(v: Seq<(u32, T)>, p: (u32, T))
    requires
        keys_unique(v),
        !map_has(v, p.0),
    ensures
        keys_unique(v.push(p)),
{
    let w = v.push(p);
    assert forall|j: int, k: int| 0 <= j < k < w.len() implies w[j].0 != w[k].0 by {
        if k < v.len() {
            assert(v[j].0 != v[k].0);
        } else {
            assert(w[j] == v[j]);
            assert(v[j].0 != p.0);
        }
    }
}

/// Removing an entry keeps keys unique.
pub proof fn lemma_unique_remove<T>(v: Seq<(u32, T)>, i: int)
    requires
        keys_unique(v),
        0 <= i < v.len(),
    ensures
        keys_unique(v.remove(i)),
{
    v.remove_ensures(i);
    let w = v.remove(i);
    assert forall|j: int, k: int| 0 <= j < k < w.len() implies w[j].0 != w[k].0 by {
        let j0 = if j < i { j } else { j + 1 };
        let k0 = if k < i { k } else { k + 1 };
        assert(w[j] == v[j0]);
        assert(w[k] == v[k0]);
        assert(v[j0].0 != v[k0].0);
    }
}

/// Find the entry with this key.
fn map_find<T>(v: &Vec<(u32, T)>, id: u32) -> (r: Option<usize>)
    requires
        keys_unique(v@),
    ensures
        r matches Some(i) ==> i < v@.len() && v@[i as int].0 == id && i == map_index_of(v@, id)
            && map_has(v@, id),
        r is None ==> !map_has(v@, id),
{
    let mut i: usize = 0;
    while i < v.len()
        invariant
            keys_unique(v@),
            i <= v@.len(),
            forall|k: int| 0 <= k < i ==> v@[k].0 != id,
        decreases v@.len() - i,
    {
        if v[i].0 == id {
            proof {
                lemma_key_at(v@, id, i as int);
            }
            return Some(i);
        }
        i += 1;
    }
    None
}

/// The entry models of a wlr association list.
pub open spec fn entries_view(s: Seq<(u32, ToplevelEntry)>) -> Seq<(u32, EntryV)> {
    s.map_values(|p: (u32, ToplevelEntry)| (p.0, p.1@))
}

/// The state models of a KDE association list.
pub open spec fn kde_view(s: Seq<(u32, KdeWindowState)>) -> Seq<(u32, KdeStateV)> {
    s.map_values(|p: (u32, KdeWindowState)| (p.0, p.1@))
}

/// The view list mirrors the exec list: same keys, unique when the
/// exec keys are, with membership coinciding key by key.
pub proof fn wlr_key_facts(v: Seq<(u32, ToplevelEntry)>)
    requires
        keys_unique(v),
    ensures
        entries_view(v).len() == v.len(),
        forall|k: int|
            0 <= k < v.len() ==> (#[trigger] entries_view(v)[k]) == (v[k].0, v[k].1@),
        keys_unique(entries_view(v)),
        forall|id: u32| #[trigger] map_has(entries_view(v), id) == map_has(v, id),
{
    let s = entries_view(v);
    assert forall|j: int, k: int| 0 <= j < k < s.len() implies s[j].0 != s[k].0 by {
        assert(v[j].0 != v[k].0);
    }
    assert forall|id: u32| #[trigger] map_has(s, id) == map_has(v, id) by {
        if map_has(v, id) {
            let j = choose|j: int| 0 <= j < v.len() && v[j].0 == id;
            assert(s[j].0 == id);
            assert(map_has(s, id));
        }
        if map_has(s, id) {
            let j = choose|j: int| 0 <= j < s.len() && s[j].0 == id;
            assert(v[j].0 == id);
            assert(map_has(v, id));
        }
    }
}

/// The KDE view list mirrors the exec list in the same way.
pub proof fn kde_key_facts(v: Seq<(u32, KdeWindowState)>)
    requires
        keys_unique(v),
    ensures
        kde_view(v).len() == v.len(),
        forall|k: int| 0 <= k < v.len() ==> (#[trigger] kde_view(v)[k]) == (v[k].0, v[k].1@),
        keys_unique(kde_view(v)),
        forall|id: u32| #[trigger] map_has(kde_view(v), id) == map_has(v, id),
{
    let s = kde_view(v);
    assert forall|j: int, k: int| 0 <= j < k < s.len() implies s[j].0 != s[k].0 by {
        assert(v[j].0 != v[k].0);
    }
    assert forall|id: u32| #[trigger] map_has(s, id) == map_has(v, id) by {
        if map_has(v, id) {
            let j = choose|j: int| 0 <= j < v.len() && v[j].0 == id;
            assert(s[j].0 == id);
            assert(map_has(s, id));
        }
        if map_has(s, id) {
            let j = choose|j: int| 0 <= j < s.len() && s[j].0 == id;
            assert(v[j].0 == id);
            assert(map_has(v, id));
        }
    }
}

/// What one wlr event does to the entry models, and whether it
/// notifies: `Created` upserts a fresh entry; `Title`, `AppId` and
/// `State` mutate a known entry's pending copy (`State` replaces all
/// four flags from the full array); `Done` publishes the pending copy
/// and notifies; `Closed` removes. Events for unknown ids are dropped.
pub open spec fn wlr_step(s: Seq<(u32, EntryV)>, ev: WlrEventV) -> (Seq<(u32, EntryV)>, bool) {
    match ev {
        WlrEventV::Created { id } => {
            if map_has(s, id) {
                (s.update(map_index_of(s, id), (id, empty_entry_v())), false)
            } else {
                (s.push((id, empty_entry_v())), false)
            }
        },
        WlrEventV::Title { id, title } => {
            if map_has(s, id) {
                let i = map_index_of(s, id);
                let e = s[i].1;
                let p = FieldsV { title, ..e.pending };
                (s.update(i, (id, EntryV { pending: p, ..e })), false)
            } else {
                (s, false)
            }
        },
        WlrEventV::AppId { id, app_id } => {
            if map_has(s, id) {
                let i = map_index_of(s, id);
                let e = s[i].1;
                let p = FieldsV { app_id, ..e.pending };
                (s.update(i, (id, EntryV { pending: p, ..e })), false)
            } else {
                (s, false)
            }
        },
        WlrEventV::State { id, states } => {
            if map_has(s, id) {
                let i = map_index_of(s, id);
                let e = s[i].1;
                let p = FieldsV {
                    maximized: states.contains(0u32),
                    minimized: states.contains(1u32),
                    activated: states.contains(2u32),
                    fullscreen: states.contains(3u32),
                    ..e.pending
                };
                (s.update(i, (id, EntryV { pending: p, ..e })), false)
            } else {
                (s, false)
            }
        },
        WlrEventV::Done { id } => {
            if map_has(s, id) {
                let i = map_index_of(s, id);
                let e = s[i].1;
                (
                    s.update(i, (id, EntryV { pending: e.pending, committed: e.pending, ready: true })),
                    true,
                )
            } else {
                (s, false)
            }
        },
        WlrEventV::Closed { id } => {
            if map_has(s, id) {
                (s.remove(map_index_of(s, id)), false)
            } else {
                (s, false)
            }
        },
    }
}

/// What one KDE event does to the state models, and whether it
/// notifies: values apply immediately, and any event for a known id
/// notifies (there is no commit batching in this protocol).
pub open spec fn kde_step(s: Seq<(u32, KdeStateV)>, ev: KdeEventV) -> (
    Seq<(u32, KdeStateV)>,
    bool,
) {
    match ev {
        KdeEventV::Created { id } => {
            if map_has(s, id) {
                (s.update(map_index_of(s, id), (id, empty_kde_state_v())), false)
            } else {
                (s.push((id, empty_kde_state_v())), false)
            }
        },
        KdeEventV::TitleChanged { id, title } => {
            if map_has(s, id) {
                let i = map_index_of(s, id);
                (s.update(i, (id, KdeStateV { title, ..s[i].1 })), true)
            } else {
                (s, false)
            }
        },
        KdeEventV::AppIdChanged { id, app_id } => {
            if map_has(s, id) {
                let i = map_index_of(s, id);
                (s.update(i, (id, KdeStateV { app_id, ..s[i].1 })), true)
            } else {
                (s, false)
            }
        },
        KdeEventV::StateChanged { id, flags } => {
            if map_has(s, id) {
                let i = map_index_of(s, id);
                let st = KdeStateV {
                    minimized: flags & 2 != 0,
                    activated: flags & 1 != 0,
                    maximized: flags & 4 != 0,
                    fullscreen: flags & 8 != 0,
                    ..s[i].1
                };
                (s.update(i, (id, st)), true)
            } else {
                (s, false)
            }
        },
        KdeEventV::VirtualDesktopChanged { id, number } => {
            if map_has(s, id) {
                let i = map_index_of(s, id);
                (s.update(i, (id, KdeStateV { desktop: number, ..s[i].1 })), true)
            } else {
                (s, false)
            }
        },
        KdeEventV::Unmapped { id } => {
            if map_has(s, id) {
                (s.remove(map_index_of(s, id)), true)
            } else {
                (s, false)
            }
        },
    }
}

/// Which window-management protocol the compositor advertised.
#[derive(Debug, Clone, Copy, PartialEq, Eq, Structural)]
pub enum WaylandProtocol {
    Wlr,
    Kde,
}

/// One request the I/O layer must send on a toplevel handle (with the
/// bound seat where activation needs one).
#[derive(Debug, Clone, Copy, PartialEq, Eq, Structural)]
pub enum WaylandRequest {
    UnsetMinimized { window: u32 },
    SetMinimized { window: u32 },
    Activate { window: u32 },
}

/// The toggle decision for a toplevel in the given committed state:
/// minimized toplevels are restored and activated; the activated one
/// is minimized; any other is activated.
pub open spec fn wl_toggle_requests(w: u32, minimized: bool, activated: bool) -> Seq<
    WaylandRequest,
> {
    if minimized {
        seq![
            (WaylandRequest::UnsetMinimized { window: w }),
            (WaylandRequest::Activate { window: w }),
        ]
    } else if activated {
        seq![(WaylandRequest::SetMinimized { window: w })]
    } else {
        seq![(WaylandRequest::Activate { window: w })]
    }
}

/// A registry global worth binding.
#[derive(Debug, Clone, Copy, PartialEq, Eq, Structural)]
pub enum GlobalBind {
    WlrManager,
    KdeManager,
    Seat,
}

/// Decide whether an advertised registry global should be bound: the
/// wlr toplevel manager, the KDE window-management global, or a seat,
/// each at version 1.
pub fn classify_global(interface: &str, version: u32) -> (r: Option<GlobalBind>)
    ensures
        r == Some(GlobalBind::WlrManager) <==> interface@ == "zwlr_foreign_toplevel_manager_v1"@
            && version >= 1,
        r == Some(GlobalBind::KdeManager) <==> interface@ == "org_kde_plasma_window_management"@
            && version >= 1,
        r == Some(GlobalBind::Seat) <==> interface@ == "wl_seat"@ && version >= 1,
        r is None <==> !(version >= 1 && (interface@ == "zwlr_foreign_toplevel_manager_v1"@
            || interface@ == "org_kde_plasma_window_management"@ || interface@ == "wl_seat"@)),
{
    proof {
        reveal_strlit("zwlr_foreign_toplevel_manager_v1");
        reveal_strlit("org_kde_plasma_window_management");
        reveal_strlit("wl_seat");
        assert("zwlr_foreign_toplevel_manager_v1"@[0] == 'z');
        assert("org_kde_plasma_window_management"@[0] == 'o');
        assert("wl_seat"@.len() == 7);
        assert("zwlr_foreign_toplevel_manager_v1"@.len() == 32);
        assert("org_kde_plasma_window_management"@.len() == 32);
        assert("zwlr_foreign_toplevel_manager_v1"@ != "org_kde_plasma_window_management"@);
    }
    if version < 1 {
        return None;
    }
    if str_eq(interface, "zwlr_foreign_toplevel_manager_v1") {
        Some(GlobalBind::WlrManager)
    } else if str_eq(interface, "org_kde_plasma_window_management") {
        Some(GlobalBind::KdeManager)
    } else if str_eq(interface, "wl_seat") {
        Some(GlobalBind::Seat)
    } else {
        None
    }
}

/// The Wayland backend: entries folded from the protocol's event
/// stream, one bound protocol, and whether a seat is bound.
pub struct WaylandManager {
    /// Which protocol the session bound.
    pub protocol: WaylandProtocol,
    /// The wlr toplevels, in announcement order.
    pub toplevels: Vec<(u32, ToplevelEntry)>,
    /// The KDE windows, in announcement order.
    pub kde_windows: Vec<(u32, KdeWindowState)>,
    /// A seat is bound (required for toggling).
    pub has_seat: bool,
}

/// The record a committed toplevel snapshot maps to.
pub open spec fn wl_record_view(id: u32, f: FieldsV) -> WindowInfoV {
    WindowInfoV {
        id: dec_chars_of(id as nat),
        title: f.title,
        is_minimized: f.minimized,
        icon: f.app_id,
        demands_attention: None,
    }
}

/// The records the wlr entries yield: committed snapshots of ready,
/// non-deny-listed toplevels, in announcement order.
pub open spec fn wl_list_view(s: Seq<(u32, EntryV)>) -> Seq<WindowInfoV>
    decreases s.len(),
{
    if s.len() == 0 {
        Seq::empty()
    } else {
        wl_list_view(s.drop_last()) + {
            let e = s.last().1;
            if e.ready && !wayland_app_denied(e.committed.app_id) {
                seq![wl_record_view(s.last().0, e.committed)]
            } else {
                Seq::empty()
            }
        }
    }
}

/// The record a KDE window state maps to.
pub open spec fn kde_record_view(id: u32, st: KdeStateV) -> WindowInfoV {
    WindowInfoV {
        id: dec_chars_of(id as nat),
        title: st.title,
        is_minimized: st.minimized,
        icon: st.app_id,
        demands_attention: None,
    }
}

/// The records the KDE windows yield: every non-deny-listed window.
pub open spec fn kde_list_view(s: Seq<(u32, KdeStateV)>) -> Seq<WindowInfoV>
    decreases s.len(),
{
    if s.len() == 0 {
        Seq::empty()
    } else {
        kde_list_view(s.drop_last()) + {
            let st = s.last().1;
            if !wayland_app_denied(st.app_id) {
                seq![kde_record_view(s.last().0, st)]
            } else {
                Seq::empty()
            }
        }
    }
}

impl WaylandManager {
    /// Ids are unique in both association lists.
    pub open spec fn wf(&self) -> bool {
        keys_unique(self.toplevels@) && keys_unique(self.kde_windows@)
    }

    /// A fresh backend for the bound protocol, before any event.
    pub fn new(protocol: WaylandProtocol, has_seat: bool) -> (r: Self)
        ensures
            r.protocol == protocol,
            r.has_seat == has_seat,
            r.toplevels@.len() == 0,
            r.kde_windows@.len() == 0,
            r.wf(),
    {
        WaylandManager { protocol, toplevels: Vec::new(), kde_windows: Vec::new(), has_seat }
    }

    /// Record that a seat was bound (or lost).
    pub fn set_seat(&mut self, has_seat: bool)
        ensures
            final(self).has_seat == has_seat,
            final(self).protocol == old(self).protocol,
            final(self).toplevels == old(self).toplevels,
            final(self).kde_windows == old(self).kde_windows,
    {
        self.has_seat = has_seat;
    }

    /// Fold one wlr event into the entries. Returns whether the event
    /// marks a consistent snapshot that observers should be told about.
    pub fn apply_wlr_event(&mut self, ev: WlrEvent) -> (notify: bool)
        requires
            old(self).wf(),
        ensures
            final(self).wf(),
            final(self).protocol == old(self).protocol,
            final(self).has_seat == old(self).has_seat,
            final(self).kde_windows == old(self).kde_windows,
            (entries_view(final(self).toplevels@), notify) == wlr_step(
                entries_view(old(self).toplevels@),
                ev@,
            ),
    {
        let ghost v0 = self.toplevels@;
        let ghost s0 = entries_view(v0);
        proof {
            wlr_key_facts(v0);
        }
        match ev {
            WlrEvent::Created { id } => {
                let entry = ToplevelEntry {
                    pending: empty_fields(),
                    committed: empty_fields(),
                    ready: false,
                };
                match map_find(&self.toplevels, id) {
                    Some(i) => {
                        let _ = self.toplevels.remove(i);
                        self.toplevels.insert(i, (id, entry));
                        proof {
                            let cur = self.toplevels@;
                            assert(cur =~= v0.update(i as int, cur[i as int]));
                            assert(cur[i as int].0 == id && cur[i as int].1@ == empty_entry_v());
                            lemma_unique_update(v0, i as int, cur[i as int]);
                            lemma_key_at(s0, id, i as int);
                            assert(entries_view(cur) =~= s0.update(
                                i as int,
                                (id, empty_entry_v()),
                            ));
                        }
                    },
                    None => {
                        self.toplevels.push((id, entry));
                        proof {
                            let cur = self.toplevels@;
                            lemma_unique_push(v0, cur[cur.len() - 1]);
                            assert(cur[cur.len() - 1].1@ == empty_entry_v());
                            assert(entries_view(cur) =~= s0.push((id, empty_entry_v())));
                            assert(!map_has(s0, id));
                        }
                    },
                }
                false
            },
            WlrEvent::Title { id, title } => {
                let ghost tv = title@;
                match map_find(&self.toplevels, id) {
                    Some(i) => {
                        let (_, old_entry) = self.toplevels.remove(i);
                        let new_entry = ToplevelEntry {
                            pending: ToplevelFields { title, ..old_entry.pending },
                            ..old_entry
                        };
                        let ghost ne = new_entry@;
                        self.toplevels.insert(i, (id, new_entry));
                        proof {
                            let cur = self.toplevels@;
                            assert(cur =~= v0.update(i as int, cur[i as int]));
                            assert(cur[i as int].0 == id && cur[i as int].1@ == ne);
                            lemma_unique_update(v0, i as int, cur[i as int]);
                            lemma_key_at(s0, id, i as int);
                            assert(ne == (EntryV {
                                pending: (FieldsV { title: tv, ..s0[i as int].1.pending }),
                                ..s0[i as int].1
                            }));
                            assert(entries_view(cur) =~= s0.update(i as int, (id, ne)));
                        }
                    },
                    None => {
                        proof {
                            assert(!map_has(s0, id));
                        }
                    },
                }
                false
            },
            WlrEvent::AppId { id, app_id } => {
                let ghost av = app_id@;
                match map_find(&self.toplevels, id) {
                    Some(i) => {
                        let (_, old_entry) = self.toplevels.remove(i);
                        let new_entry = ToplevelEntry {
                            pending: ToplevelFields { app_id, ..old_entry.pending },
                            ..old_entry
                        };
                        let ghost ne = new_entry@;
                        self.toplevels.insert(i, (id, new_entry));
                        proof {
                            let cur = self.toplevels@;
                            assert(cur =~= v0.update(i as int, cur[i as int]));
                            assert(cur[i as int].0 == id && cur[i as int].1@ == ne);
                            lemma_unique_update(v0, i as int, cur[i as int]);
                            lemma_key_at(s0, id, i as int);
                            assert(ne == (EntryV {
                                pending: (FieldsV { app_id: av, ..s0[i as int].1.pending }),
                                ..s0[i as int].1
                            }));
                            assert(entries_view(cur) =~= s0.update(i as int, (id, ne)));
                        }
                    },
                    None => {
                        proof {
                            assert(!map_has(s0, id));
                        }
                    },
                }
                false
            },
            WlrEvent::State { id, states } => {
                match map_find(&self.toplevels, id) {
                    Some(i) => {
                        let maximized = vec_contains_u32(&states, 0);
                        let minimized = vec_contains_u32(&states, 1);
                        let activated = vec_contains_u32(&states, 2);
                        let fullscreen = vec_contains_u32(&states, 3);
                        let (_, old_entry) = self.toplevels.remove(i);
                        let new_entry = ToplevelEntry {
                            pending: ToplevelFields {
                                maximized,
                                minimized,
                                activated,
                                fullscreen,
                                ..old_entry.pending
                            },
                            ..old_entry
                        };
                        let ghost ne = new_entry@;
                        self.toplevels.insert(i, (id, new_entry));
                        proof {
                            let cur = self.toplevels@;
                            assert(cur =~= v0.update(i as int, cur[i as int]));
                            assert(cur[i as int].0 == id && cur[i as int].1@ == ne);
                            lemma_unique_update(v0, i as int, cur[i as int]);
                            lemma_key_at(s0, id, i as int);
                            assert(ne == (EntryV {
                                pending: (FieldsV {
                                    maximized: states@.contains(0u32),
                                    minimized: states@.contains(1u32),
                                    activated: states@.contains(2u32),
                                    fullscreen: states@.contains(3u32),
                                    ..s0[i as int].1.pending
                                }),
                                ..s0[i as int].1
                            }));
                            assert(entries_view(cur) =~= s0.update(i as int, (id, ne)));
                        }
                    },
                    None => {
                        proof {
                            assert(!map_has(s0, id));
                        }
                    },
                }
                false
            },
            WlrEvent::Done { id } => {
                match map_find(&self.toplevels, id) {
                    Some(i) => {
                        let (_, old_entry) = self.toplevels.remove(i);
                        let published = clone_fields(&old_entry.pending);
                        let new_entry = ToplevelEntry {
                            pending: old_entry.pending,
                            committed: published,
                            ready: true,
                        };
                        let ghost ne = new_entry@;
                        self.toplevels.insert(i, (id, new_entry));
                        proof {
                            let cur = self.toplevels@;
                            assert(cur =~= v0.update(i as int, cur[i as int]));
                            assert(cur[i as int].0 == id && cur[i as int].1@ == ne);
                            lemma_unique_update(v0, i as int, cur[i as int]);
                            lemma_key_at(s0, id, i as int);
                            assert(ne == (EntryV {
                                pending: s0[i as int].1.pending,
                                committed: s0[i as int].1.pending,
                                ready: true,
                            }));
                            assert(entries_view(cur) =~= s0.update(i as int, (id, ne)));
                        }
                        true
                    },
                    None => {
                        proof {
                            assert(!map_has(s0, id));
                        }
                        false
                    },
                }
            },
            WlrEvent::Closed { id } => {
                match map_find(&self.toplevels, id) {
                    Some(i) => {
                        let _ = self.toplevels.remove(i);
                        proof {
                            let cur = self.toplevels@;
                            lemma_unique_remove(v0, i as int);
                            lemma_key_at(s0, id, i as int);
                            v0.remove_ensures(i as int);
                            s0.remove_ensures(i as int);
                            assert(entries_view(cur) =~= s0.remove(i as int));
                        }
                    },
                    None => {
                        proof {
                            assert(!map_has(s0, id));
                        }
                    },
                }
                false
            },
        }
    }

    /// Fold one KDE event into the window states. Returns whether
    /// observers should be told.
    pub fn apply_kde_event(&mut self, ev: KdeEvent) -> (notify: bool)
        requires
            old(self).wf(),
        ensures
            final(self).wf(),
            final(self).protocol == old(self).protocol,
            final(self).has_seat == old(self).has_seat,
            final(self).toplevels == old(self).toplevels,
            (kde_view(final(self).kde_windows@), notify) == kde_step(
                kde_view(old(self).kde_windows@),
                ev@,
            ),
    {
        let ghost v0 = self.kde_windows@;
        let ghost s0 = kde_view(v0);
        proof {
            kde_key_facts(v0);
        }
        match ev {
            KdeEvent::Created { id } => {
                let st = empty_kde_state();
                match map_find(&self.kde_windows, id) {
                    Some(i) => {
                        let _ = self.kde_windows.remove(i);
                        self.kde_windows.insert(i, (id, st));
                        proof {
                            let cur = self.kde_windows@;
                            assert(cur =~= v0.update(i as int, cur[i as int]));
                            assert(cur[i as int].0 == id && cur[i as int].1@
                                == empty_kde_state_v());
                            lemma_unique_update(v0, i as int, cur[i as int]);
                            lemma_key_at(s0, id, i as int);
                            assert(kde_view(cur) =~= s0.update(
                                i as int,
                                (id, empty_kde_state_v()),
                            ));
                        }
                    },
                    None => {
                        self.kde_windows.push((id, st));
                        proof {
                            let cur = self.kde_windows@;
                            lemma_unique_push(v0, cur[cur.len() - 1]);
                            assert(cur[cur.len() - 1].1@ == empty_kde_state_v());
                            assert(kde_view(cur) =~= s0.push((id, empty_kde_state_v())));
                            assert(!map_has(s0, id));
                        }
                    },
                }
                false
            },
            KdeEvent::TitleChanged { id, title } => {
                let ghost tv = title@;
                match map_find(&self.kde_windows, id) {
                    Some(i) => {
                        let (_, old_st) = self.kde_windows.remove(i);
                        let new_st = KdeWindowState { title, ..old_st };
                        let ghost nv = new_st@;
                        self.kde_windows.insert(i, (id, new_st));
                        proof {
                            let cur = self.kde_windows@;
                            assert(cur =~= v0.update(i as int, cur[i as int]));
                            assert(cur[i as int].0 == id && cur[i as int].1@ == nv);
                            lemma_unique_update(v0, i as int, cur[i as int]);
                            lemma_key_at(s0, id, i as int);
                            assert(nv == (KdeStateV { title: tv, ..s0[i as int].1 }));
                            assert(kde_view(cur) =~= s0.update(i as int, (id, nv)));
                        }
                        true
                    },
                    None => {
                        proof {
                            assert(!map_has(s0, id));
                        }
                        false
                    },
                }
            },
            KdeEvent::AppIdChanged { id, app_id } => {
                let ghost av = app_id@;
                match map_find(&self.kde_windows, id) {
                    Some(i) => {
                        let (_, old_st) = self.kde_windows.remove(i);
                        let new_st = KdeWindowState { app_id, ..old_st };
                        let ghost nv = new_st@;
                        self.kde_windows.insert(i, (id, new_st));
                        proof {
                            let cur = self.kde_windows@;
                            assert(cur =~= v0.update(i as int, cur[i as int]));
                            assert(cur[i as int].0 == id && cur[i as int].1@ == nv);
                            lemma_unique_update(v0, i as int, cur[i as int]);
                            lemma_key_at(s0, id, i as int);
                            assert(nv == (KdeStateV { app_id: av, ..s0[i as int].1 }));
                            assert(kde_view(cur) =~= s0.update(i as int, (id, nv)));
                        }
                        true
                    },
                    None => {
                        proof {
                            assert(!map_has(s0, id));
                        }
                        false
                    },
                }
            },
            KdeEvent::StateChanged { id, flags } => {
                match map_find(&self.kde_windows, id) {
                    Some(i) => {
                        let (_, old_st) = self.kde_windows.remove(i);
                        let new_st = KdeWindowState {
                            minimized: flags & 2 != 0,
                            activated: flags & 1 != 0,
                            maximized: flags & 4 != 0,
                            fullscreen: flags & 8 != 0,
                            ..old_st
                        };
                        let ghost nv = new_st@;
                        self.kde_windows.insert(i, (id, new_st));
                        proof {
                            let cur = self.kde_windows@;
                            assert(cur =~= v0.update(i as int, cur[i as int]));
                            assert(cur[i as int].0 == id && cur[i as int].1@ == nv);
                            lemma_unique_update(v0, i as int, cur[i as int]);
                            lemma_key_at(s0, id, i as int);
                            assert(nv == (KdeStateV {
                                minimized: flags & 2 != 0,
                                activated: flags & 1 != 0,
                                maximized: flags & 4 != 0,
                                fullscreen: flags & 8 != 0,
                                ..s0[i as int].1
                            }));
                            assert(kde_view(cur) =~= s0.update(i as int, (id, nv)));
                        }
                        true
                    },
                    None => {
                        proof {
                            assert(!map_has(s0, id));
                        }
                        false
                    },
                }
            },
            KdeEvent::VirtualDesktopChanged { id, number } => {
                match map_find(&self.kde_windows, id) {
                    Some(i) => {
                        let (_, old_st) = self.kde_windows.remove(i);
                        let new_st = KdeWindowState { desktop: number, ..old_st };
                        let ghost nv = new_st@;
                        self.kde_windows.insert(i, (id, new_st));
                        proof {
                            let cur = self.kde_windows@;
                            assert(cur =~= v0.update(i as int, cur[i as int]));
                            assert(cur[i as int].0 == id && cur[i as int].1@ == nv);
                            lemma_unique_update(v0, i as int, cur[i as int]);
                            lemma_key_at(s0, id, i as int);
                            assert(nv == (KdeStateV { desktop: number as int, ..s0[i as int].1 }));
                            assert(kde_view(cur) =~= s0.update(i as int, (id, nv)));
                        }
                        true
                    },
                    None => {
                        proof {
                            assert(!map_has(s0, id));
                        }
                        false
                    },
                }
            },
            KdeEvent::Unmapped { id } => {
                match map_find(&self.kde_windows, id) {
                    Some(i) => {
                        let _ = self.kde_windows.remove(i);
                        proof {
                            let cur = self.kde_windows@;
                            lemma_unique_remove(v0, i as int);
                            lemma_key_at(s0, id, i as int);
                            v0.remove_ensures(i as int);
                            s0.remove_ensures(i as int);
                            assert(kde_view(cur) =~= s0.remove(i as int));
                        }
                        true
                    },
                    None => {
                        proof {
                            assert(!map_has(s0, id));
                        }
                        false
                    },
                }
            },
        }
    }
}

/// Empty fields for a fresh toplevel.
fn empty_fields() -> (r: ToplevelFields)
    ensures
        r@ == empty_fields_v(),
{
    ToplevelFields {
        title: String::new(),
        app_id: String::new(),
        maximized: false,
        minimized: false,
        activated: false,
        fullscreen: false,
    }
}

/// Empty state for a fresh KDE window.
fn empty_kde_state() -> (r: KdeWindowState)
    ensures
        r@ == empty_kde_state_v(),
{
    KdeWindowState {
        title: String::new(),
        app_id: String::new(),
        maximized: false,
        minimized: false,
        activated: false,
        fullscreen: false,
        desktop: 0,
    }
}

/// Copy a field set (views equal).
fn clone_fields(f: &ToplevelFields) -> (r: ToplevelFields)
    ensures
        r@ == f@,
{
    ToplevelFields {
        title: f.title.clone(),
        app_id: f.app_id.clone(),
        maximized: f.maximized,
        minimized: f.minimized,
        activated: f.activated,
        fullscreen: f.fullscreen,
    }
}

/// Linear membership test on a `u32` vector.
fn vec_contains_u32(v: &Vec<u32>, x: u32) -> (r: bool)
    ensures
        r == v@.contains(x),
{
    let mut i: usize = 0;
    while i < v.len()
        invariant
            i <= v@.len(),
            forall|k: int| 0 <= k < i ==> v@[k] != x,
        decreases v@.len() - i,
    {
        if v[i] == x {
            return true;
        }
        i += 1;
    }
    false
}

impl WindowManagerBackend for WaylandManager {
    open spec fn inv(&self) -> bool {
        self.wf()
    }

    open spec fn visible_windows(&self) -> Seq<WindowInfoV> {
        wl_list_view(entries_view(self.toplevels@)) + kde_list_view(kde_view(self.kde_windows@))
    }

    open spec fn toggle_plan_spec(&self, id: Seq<char>) -> Result<TogglePlanV, EngineError> {
        if !(is_dec_string(id) && dec_val(id) <= u32::MAX) {
            Err(EngineError::InvalidWindowId)
        } else {
            let w = dec_val(id) as u32;
            let wlr = entries_view(self.toplevels@);
            let kde = kde_view(self.kde_windows@);
            if map_has(wlr, w) {
                if !self.has_seat {
                    Err(EngineError::SeatUnavailable)
                } else {
                    let f = wlr[map_index_of(wlr, w)].1.committed;
                    Ok(TogglePlanV::Wayland(wl_toggle_requests(w, f.minimized, f.activated)))
                }
            } else if map_has(kde, w) {
                if !self.has_seat {
                    Err(EngineError::SeatUnavailable)
                } else {
                    let st = kde[map_index_of(kde, w)].1;
                    Ok(TogglePlanV::Wayland(wl_toggle_requests(w, st.minimized, st.activated)))
                }
            } else {
                Err(EngineError::WindowNotFound)
            }
        }
    }

    fn get_window_list(&self) -> (r: Result<Vec<WindowInfo>, EngineError>) {
        let mut out: Vec<WindowInfo> = Vec::new();
        let ghost wlr = entries_view(self.toplevels@);
        let mut i: usize = 0;
        while i < self.toplevels.len()
            invariant
                wlr == entries_view(self.toplevels@),
                i <= self.toplevels@.len(),
                views_of(out@) == wl_list_view(wlr.take(i as int)),
            decreases self.toplevels@.len() - i,
        {
            let entry = &self.toplevels[i].1;
            let ghost prev = out@;
            if entry.ready && !app_denied(&entry.committed.app_id) {
                let info = WindowInfo {
                    id: u32_to_dec(self.toplevels[i].0),
                    title: entry.committed.title.clone(),
                    is_minimized: entry.committed.minimized,
                    icon: entry.committed.app_id.clone(),
                    demands_attention: None,
                };
                assert(info@ == wl_record_view(wlr[i as int].0, wlr[i as int].1.committed));
                out.push(info);
            }
            proof {
                assert(wlr.take(i + 1).drop_last() =~= wlr.take(i as int));
                assert(wlr.take(i + 1).last() == wlr[i as int]);
                if wlr[i as int].1.ready && !wayland_app_denied(wlr[i as int].1.committed.app_id) {
                    assert(views_of(out@) =~= views_of(prev) + seq![
                        wl_record_view(wlr[i as int].0, wlr[i as int].1.committed),
                    ]);
                    assert(views_of(out@) =~= wl_list_view(wlr.take(i + 1)));
                } else {
                    assert(views_of(out@) =~= views_of(prev));
                    assert(views_of(out@) =~= wl_list_view(wlr.take(i + 1)));
                }
            }
            i += 1;
        }
        proof {
            assert(wlr.take(wlr.len() as int) =~= wlr);
        }
        let ghost kde = kde_view(self.kde_windows@);
        let ghost wl_part = views_of(out@);
        let mut j: usize = 0;
        while j < self.kde_windows.len()
            invariant
                wl_part == wl_list_view(entries_view(self.toplevels@)),
                kde == kde_view(self.kde_windows@),
                j <= self.kde_windows@.len(),
                views_of(out@) == wl_part + kde_list_view(kde.take(j as int)),
            decreases self.kde_windows@.len() - j,
        {
            let st = &self.kde_windows[j].1;
            let ghost prev = out@;
            if !app_denied(&st.app_id) {
                let info = WindowInfo {
                    id: u32_to_dec(self.kde_windows[j].0),
                    title: st.title.clone(),
                    is_minimized: st.minimized,
                    icon: st.app_id.clone(),
                    demands_attention: None,
                };
                assert(info@ == kde_record_view(kde[j as int].0, kde[j as int].1));
                out.push(info);
            }
            proof {
                assert(kde.take(j + 1).drop_last() =~= kde.take(j as int));
                assert(kde.take(j + 1).last() == kde[j as int]);
                if !wayland_app_denied(kde[j as int].1.app_id) {
                    assert(views_of(out@) =~= views_of(prev) + seq![
                        kde_record_view(kde[j as int].0, kde[j as int].1),
                    ]);
                    assert(views_of(out@) =~= wl_part + kde_list_view(kde.take(j + 1)));
                } else {
                    assert(views_of(out@) =~= views_of(prev));
                    assert(views_of(out@) =~= wl_part + kde_list_view(kde.take(j + 1)));
                }
            }
            j += 1;
        }
        proof {
            assert(kde.take(kde.len() as int) =~= kde);
        }
        Ok(out)
    }

    fn toggle_window(&self, win_id: &str) -> (r: Result<TogglePlan, EngineError>) {
        proof {
            wlr_key_facts(self.toplevels@);
            kde_key_facts(self.kde_windows@);
        }
        let w = match parse_u32_dec(win_id) {
            Some(w) => w,
            None => {
                return Err(EngineError::InvalidWindowId);
            },
        };
        let ghost wlr = entries_view(self.toplevels@);
        let ghost kde = kde_view(self.kde_windows@);
        match map_find(&self.toplevels, w) {
            Some(i) => {
                proof {
                    lemma_key_at(wlr, w, i as int);
                }
                if !self.has_seat {
                    return Err(EngineError::SeatUnavailable);
                }
                let entry = &self.toplevels[i].1;
                let mut reqs: Vec<WaylandRequest> = Vec::new();
                if entry.committed.minimized {
                    reqs.push(WaylandRequest::UnsetMinimized { window: w });
                    reqs.push(WaylandRequest::Activate { window: w });
                } else if entry.committed.activated {
                    reqs.push(WaylandRequest::SetMinimized { window: w });
                } else {
                    reqs.push(WaylandRequest::Activate { window: w });
                }
                proof {
                    assert(wlr[i as int].1 == self.toplevels@[i as int].1@);
                    assert(reqs@ =~= wl_toggle_requests(
                        w,
                        wlr[i as int].1.committed.minimized,
                        wlr[i as int].1.committed.activated,
                    ));
                }
                Ok(TogglePlan::Wayland(reqs))
            },
            None => {
                match map_find(&self.kde_windows, w) {
                    Some(j) => {
                        proof {
                            lemma_key_at(kde, w, j as int);
                        }
                        if !self.has_seat {
                            return Err(EngineError::SeatUnavailable);
                        }
                        let st = &self.kde_windows[j].1;
                        let mut reqs: Vec<WaylandRequest> = Vec::new();
                        if st.minimized {
                            reqs.push(WaylandRequest::UnsetMinimized { window: w });
                            reqs.push(WaylandRequest::Activate { window: w });
                        } else if st.activated {
                            reqs.push(WaylandRequest::SetMinimized { window: w });
                        } else {
                            reqs.push(WaylandRequest::Activate { window: w });
                        }
                        proof {
                            assert(kde[j as int].1 == self.kde_windows@[j as int].1@);
                            assert(reqs@ =~= wl_toggle_requests(
                                w,
                                kde[j as int].1.minimized,
                                kde[j as int].1.activated,
                            ));
                        }
                        Ok(TogglePlan::Wayland(reqs))
                    },
                    None => Err(EngineError::WindowNotFound),
                }
            },
        }
    }
}

/// Every record a wlr listing yields comes from a ready entry whose
/// committed app id passes the deny list; in particular a deny-listed
/// app id never contributes a record, and no record is derived from an
/// uncommitted batch.
pub proof fn lemma_wl_listed_records_passed_filter(s: Seq<(u32, EntryV)>, w: WindowInfoV)
    requires
        wl_list_view(s).contains(w),
    ensures
        exists|j: int|
            0 <= j < s.len() && (#[trigger] s[j]).1.ready && !wayland_app_denied(
                s[j].1.committed.app_id,
            ) && w == wl_record_view(s[j].0, s[j].1.committed),
    decreases s.len(),
{
    if s.len() > 0 {
        let prefix = wl_list_view(s.drop_last());
        if prefix.contains(w) {
            lemma_wl_listed_records_passed_filter(s.drop_last(), w);
            let j = choose|j: int|
                0 <= j < s.drop_last().len() && (#[trigger] s.drop_last()[j]).1.ready
                    && !wayland_app_denied(s.drop_last()[j].1.committed.app_id) && w
                    == wl_record_view(s.drop_last()[j].0, s.drop_last()[j].1.committed);
            assert(s.drop_last()[j] == s[j]);
        } else {
            let e = s.last().1;
            assert(e.ready && !wayland_app_denied(e.committed.app_id) && w == wl_record_view(
                s.last().0,
                e.committed,
            ));
            assert(s.last() == s[s.len() - 1]);
        }
    }
}

} // verus!
