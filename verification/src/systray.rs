//! The legacy tray-icon backends (XEmbed-style tray selections).
//!
//! On X11 the tray selection owner's window list is snapshotted by the
//! I/O layer; each entry's raw `_NET_WM_ICON` property is encoded for
//! transport here. Wayland has no such selection; its backend lists
//! nothing (the DBus tray watcher covers Wayland sessions).

use vstd::prelude::*;

use crate::error::EngineError;
use crate::icon::{
    base64_of, encode_bytes_base64, encode_icon, packed_to_rgba, png_bytes_of,
    rgba_of_packed, RgbaIcon,
};
use crate::numstr::{dec_chars_of, u32_to_dec};

verus! {

/// One tray icon as handed to the host.
#[derive(Debug, Clone)]
pub struct TrayIcon {
    /// The native window id, rendered in decimal.
    pub id: String,
    /// The native window id.
    pub wid: u32,
    /// Base64 icon bytes, when the window published any.
    pub icon_data: Option<String>,
}

/// The model of a tray icon record.
pub ghost struct TrayIconV {
    pub id: Seq<char>,
    pub wid: u32,
    pub icon_data: Option<Seq<char>>,
}

impl View for TrayIcon {
    type V = TrayIconV;

    open spec fn view(&self) -> TrayIconV {
        TrayIconV {
            id: self.id@,
            wid: self.wid,
            icon_data: match &self.icon_data {
                Some(s) => Some(s@),
                None => None,
            },
        }
    }
}

/// The views of a sequence of tray icons.
pub open spec fn tray_icon_views(s: Seq<TrayIcon>) -> Seq<TrayIconV> {
    s.map_values(|t: TrayIcon| t@)
}

/// One tray-selection window as snapshotted by the I/O layer: the
/// native id and the raw bytes of its `_NET_WM_ICON` property (empty
/// when the property is absent).
#[derive(Debug, Clone)]
pub struct X11TrayWindow {
    pub window: u32,
    pub icon_bytes: Vec<u8>,
}

/// The record a tray-selection window maps to: raw icon property
/// bytes are base64-encoded as-is, an empty property yields no icon.
pub open spec fn tray_icon_view_of(w: X11TrayWindow) -> TrayIconV {
    TrayIconV {
        id: dec_chars_of(w.window as nat),
        wid: w.window,
        icon_data: if w.icon_bytes@.len() == 0 {
            None
        } else {
            Some(base64_of(w.icon_bytes@))
        },
    }
}

/// The records an X11 tray snapshot yields, in selection order.
pub open spec fn x11_tray_view(s: Seq<X11TrayWindow>) -> Seq<TrayIconV>
    decreases s.len(),
{
    if s.len() == 0 {
        Seq::empty()
    } else {
        x11_tray_view(s.drop_last()).push(tray_icon_view_of(s.last()))
    }
}

/// What any legacy tray backend owes its callers: listing returns
/// exactly the records its model declares.
pub trait SystemTrayBackend: Sized {
    /// The backend's state is usable.
    spec fn inv(&self) -> bool;

    /// The records a listing must return, in order.
    spec fn icons_model(&self) -> Seq<TrayIconV>;

    /// List the current tray icons.
    fn get_tray_icons(&self) -> (r: Result<Vec<TrayIcon>, EngineError>)
        requires
            self.inv(),
        ensures
            r matches Ok(v) && tray_icon_views(v@) == self.icons_model(),
    ;
}

/// The X11 tray backend: the latest snapshot of the tray selection
/// owner's windows, re-read before each query.
pub struct X11TrayManager {
    /// One entry per window of the tray selection, in order. Windows
    /// whose icon property exceeds what base64 can address on this
    /// machine are not representable; the I/O layer cannot produce
    /// them.
    pub tray_windows: Vec<X11TrayWindow>,
}

impl X11TrayManager {
    /// Icon properties stay within what the base64 encoder accepts.
    pub open spec fn wf(&self) -> bool {
        forall|j: int|
            0 <= j < self.tray_windows@.len()
                ==> (#[trigger] self.tray_windows@[j]).icon_bytes@.len() <= usize::MAX / 4
    }

    /// An empty backend, before the first snapshot.
    pub fn new() -> (r: Self)
        ensures
            r.tray_windows@.len() == 0,
            r.wf(),
    {
        X11TrayManager { tray_windows: Vec::new() }
    }

    /// Replace the snapshot with freshly read windows.
    pub fn ingest(&mut self, tray_windows: Vec<X11TrayWindow>)
        requires
            forall|j: int|
                0 <= j < tray_windows@.len() ==> (#[trigger] tray_windows@[j]).icon_bytes@.len()
                    <= usize::MAX / 4,
        ensures
            final(self).tray_windows == tray_windows,
            final(self).wf(),
    {
        self.tray_windows = tray_windows;
    }

    /// Build the record for one tray window.
    fn tray_icon_info(w: &X11TrayWindow) -> (r: TrayIcon)
        requires
            w.icon_bytes@.len() <= usize::MAX / 4,
        ensures
            r@ == tray_icon_view_of(*w),
    {
        let icon_data = if w.icon_bytes.len() == 0 {
            None
        } else {
            encode_bytes_base64(&w.icon_bytes)
        };
        TrayIcon { id: u32_to_dec(w.window), wid: w.window, icon_data }
    }
}

impl SystemTrayBackend for X11TrayManager {
    open spec fn inv(&self) -> bool {
        self.wf()
    }

    open spec fn icons_model(&self) -> Seq<TrayIconV> {
        x11_tray_view(self.tray_windows@)
    }

    fn get_tray_icons(&self) -> (r: Result<Vec<TrayIcon>, EngineError>) {
        let mut out: Vec<TrayIcon> = Vec::new();
        let mut i: usize = 0;
        while i < self.tray_windows.len()
            invariant
                self.wf(),
                i <= self.tray_windows@.len(),
                tray_icon_views(out@) == x11_tray_view(self.tray_windows@.take(i as int)),
            decreases self.tray_windows@.len() - i,
        {
            let ghost prev = out@;
            let icon = Self::tray_icon_info(&self.tray_windows[i]);
            out.push(icon);
            proof {
                let s = self.tray_windows@;
                assert(s.take(i + 1).drop_last() =~= s.take(i as int));
                assert(s.take(i + 1).last() == s[i as int]);
                assert(tray_icon_views(out@) =~= tray_icon_views(prev).push(
                    tray_icon_view_of(s[i as int]),
                ));
            }
            i += 1;
        }
        proof {
            assert(self.tray_windows@.take(self.tray_windows@.len() as int)
                =~= self.tray_windows@);
        }
        Ok(out)
    }
}

/// The Wayland tray backend: the XEmbed tray selection does not exist
/// on Wayland, so this backend lists nothing; tray items on Wayland
/// come from the DBus StatusNotifierItem watcher instead.
pub struct WaylandTrayManager {}

impl WaylandTrayManager {
    /// A fresh (stateless) backend.
    pub fn new() -> (r: Self) {
        WaylandTrayManager {  }
    }
}

impl SystemTrayBackend for WaylandTrayManager {
    open spec fn inv(&self) -> bool {
        true
    }

    open spec fn icons_model(&self) -> Seq<TrayIconV> {
        Seq::empty()
    }

    fn get_tray_icons(&self) -> (r: Result<Vec<TrayIcon>, EngineError>) {
        let out: Vec<TrayIcon> = Vec::new();
        proof {
            assert(tray_icon_views(out@) =~= Seq::<TrayIconV>::empty());
        }
        Ok(out)
    }
}

/// The one active legacy tray backend of a session.
pub enum TrayBackend {
    X11(X11TrayManager),
    Wayland(WaylandTrayManager),
}

impl SystemTrayBackend for TrayBackend {
    open spec fn inv(&self) -> bool {
        match self {
            TrayBackend::X11(m) => m.inv(),
            TrayBackend::Wayland(m) => m.inv(),
        }
    }

    open spec fn icons_model(&self) -> Seq<TrayIconV> {
        match self {
            TrayBackend::X11(m) => m.icons_model(),
            TrayBackend::Wayland(m) => m.icons_model(),
        }
    }

    fn get_tray_icons(&self) -> (r: Result<Vec<TrayIcon>, EngineError>) {
        match self {
            TrayBackend::X11(m) => m.get_tray_icons(),
            TrayBackend::Wayland(m) => m.get_tray_icons(),
        }
    }
}

/// The session's legacy tray manager: one backend behind the common
/// contract.
pub struct SystemTrayManager<B: SystemTrayBackend> {
    pub backend: B,
}

impl<B: SystemTrayBackend> SystemTrayManager<B> {
    /// The manager is usable when its backend is.
    pub open spec fn inv(&self) -> bool {
        self.backend.inv()
    }

    /// Wrap a backend.
    pub fn new(backend: B) -> (r: Self)
        ensures
            r.backend == backend,
    {
        SystemTrayManager { backend }
    }

    /// List the current tray icons of the active backend.
    pub fn get_tray_icons(&self) -> (r: Result<Vec<TrayIcon>, EngineError>)
        requires
            self.inv(),
        ensures
            r matches Ok(v) && tray_icon_views(v@) == self.backend.icons_model(),
    {
        self.backend.get_tray_icons()
    }
}

/// Decode a raw `_NET_WM_ICON` property into an RGBA icon: the first
/// two values are the dimensions, the rest are packed ARGB pixels.
/// Fails on a truncated or overlong pixel array and on dimensions
/// whose buffer cannot be addressed.
pub fn decode_net_wm_icon(values: &Vec<u32>) -> (r: Result<RgbaIcon, EngineError>)
    ensures
        r matches Ok(icon) ==> values@.len() >= 2 && icon.width == values@[0] && icon.height
            == values@[1] && icon.rgba@ == rgba_of_packed(values@.skip(2)) && icon.wf(),
        r is Ok <==> values@.len() >= 2 && values@.len() - 2 == values@[0] * values@[1] && 4 * (
        values@.len() - 2) <= usize::MAX,
        r is Err ==> r == Err::<RgbaIcon, _>(EngineError::DecodeError),
{
    if values.len() < 2 {
        return Err(EngineError::DecodeError);
    }
    let width = values[0];
    let height = values[1];
    let pixel_count = values.len() - 2;
    let expected = (width as usize).checked_mul(height as usize);
    match expected {
        Some(e) if e == pixel_count => {
            if pixel_count > usize::MAX / 4 {
                return Err(EngineError::DecodeError);
            }
            let mut pixels: Vec<u32> = Vec::new();
            let mut i: usize = 2;
            while i < values.len()
                invariant
                    2 <= i <= values@.len(),
                    pixels@ == values@.subrange(2, i as int),
                decreases values@.len() - i,
            {
                pixels.push(values[i]);
                assert(pixels@ =~= values@.subrange(2, i + 1));
                i += 1;
            }
            proof {
                assert(pixels@ =~= values@.skip(2));
            }
            let rgba = packed_to_rgba(&pixels);
            let icon = RgbaIcon { width, height, rgba };
            proof {
                assert(icon.rgba@.len() == 4 * pixels@.len());
                assert(icon.wf());
            }
            Ok(icon)
        },
        _ => Err(EngineError::DecodeError),
    }
}

/// Encode a window's `_NET_WM_ICON` property for transport: decode the
/// packed pixels, then PNG- and base64-encode them. A well-formed
/// property with nonzero dimensions always yields an icon, provided
/// its PNG bytes fit the transport encoder.
pub fn net_wm_icon_base64(values: &Vec<u32>) -> (r: Option<String>)
    ensures
        r matches Some(s) ==> values@.len() >= 2 && s@ == base64_of(
            png_bytes_of(values@[0], values@[1], rgba_of_packed(values@.skip(2))),
        ),
        values@.len() >= 2 && values@.len() - 2 == values@[0] * values@[1] && 4 * (values@.len()
            - 2) <= usize::MAX && values@[0] > 0 && values@[1] > 0 && png_bytes_of(
            values@[0],
            values@[1],
            rgba_of_packed(values@.skip(2)),
        ).len() <= usize::MAX / 4 ==> r is Some,
{
    match decode_net_wm_icon(values) {
        Ok(icon) => encode_icon(&icon),
        Err(_) => None,
    }
}

/// The candidate is present and nonempty.
pub open spec fn title_nonempty(c: Option<String>) -> bool {
    c matches Some(s) && s@.len() > 0
}

/// The first nonempty title among the candidates, in property
/// priority order; `None` when every candidate is absent or empty.
pub fn first_nonempty_title(candidates: Vec<Option<String>>) -> (r: Option<String>)
    ensures
        r matches Some(s) ==> s@.len() > 0 && (exists|j: int|
            0 <= j < candidates@.len() && ((#[trigger] candidates@[j]) matches Some(c) && c@
                == s@) && (forall|k: int| 0 <= k < j ==> !title_nonempty(candidates@[k]))),
        r is None ==> forall|j: int|
            0 <= j < candidates@.len() ==> !title_nonempty(#[trigger] candidates@[j]),
{
    let mut i: usize = 0;
    while i < candidates.len()
        invariant
            i <= candidates@.len(),
            forall|k: int| 0 <= k < i ==> !title_nonempty(#[trigger] candidates@[k]),
        decreases candidates@.len() - i,
    {
        match &candidates[i] {
            Some(c) => {
                if c.as_str().unicode_len() > 0 {
                    let ghost j = i as int;
                    let r = c.clone();
                    assert(candidates@[j] matches Some(c2) && c2@ == r@);
                    return Some(r);
                }
            },
            None => {},
        }
        i += 1;
    }
    None
}

/// The root-window events the tray monitor thread sees, with the
/// facts it reads alongside them: whether a property change concerns
/// the tray selection atom, and whether a destroyed window was a
/// known icon.
#[derive(Debug, Clone, Copy, PartialEq, Eq, Structural)]
pub enum TrayMonitorEvent {
    PropertyChanged { selection_atom: bool },
    WindowDestroyed { known_icon: bool },
    Other,
}

/// Whether a monitored event signals a possible tray change: a
/// property change of the tray selection, or the destruction of a
/// known icon window; anything else is ignored.
pub fn tray_event_triggers_notify(e: TrayMonitorEvent) -> (r: bool)
    ensures
        r == (match e {
            TrayMonitorEvent::PropertyChanged { selection_atom } => selection_atom,
            TrayMonitorEvent::WindowDestroyed { known_icon } => known_icon,
            TrayMonitorEvent::Other => false,
        }),
{
    match e {
        TrayMonitorEvent::PropertyChanged { selection_atom } => selection_atom,
        TrayMonitorEvent::WindowDestroyed { known_icon } => known_icon,
        TrayMonitorEvent::Other => false,
    }
}

} // verus!
