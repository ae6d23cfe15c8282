//! Icon codec: raw pixel buffers in, transportable icon strings out.
//!
//! Tray items and windows deliver icons as flat ARGB32 pixel arrays
//! (byte quadruples from SNI pixmap properties, or packed `u32` pixels
//! from X11 `_NET_WM_ICON`). The codec validates buffer sizes, reorders
//! channels into RGBA, selects the best-fitting pixmap for a requested
//! size, and encodes the result as base64-wrapped PNG for transport.
//! The PNG and base64 encodings are performed by outside crates behind
//! trusted wrappers; everything around them is verified.

use vstd::prelude::*;
use base64::Engine;

use crate::error::EngineError;

verus! {

/// A decoded icon: RGBA bytes with their dimensions.
///
/// Well-formed values hold exactly `width * height * 4` bytes.
#[derive(Debug, Clone)]
pub struct RgbaIcon {
    pub width: u32,
    pub height: u32,
    pub rgba: Vec<u8>,
}

impl RgbaIcon {
    /// The buffer holds exactly four bytes per pixel.
    pub open spec fn wf(&self) -> bool {
        self.rgba@.len() == self.width * self.height * 4
    }
}

/// The channel-reordered copy of an ARGB32 byte buffer: each aligned
/// quadruple `[a, r, g, b]` as delivered on the wire becomes
/// `[r, g, b, a]` (the wire stores pixels as little-endian ARGB words,
/// so bytes arrive as `b, g, r, a` and the swap is index `2, 1, 0, 3`).
pub open spec fn rgba_of_argb(b: Seq<u8>) -> Seq<u8> {
    Seq::new(
        b.len(),
        |i: int|
            {
                let p = 4 * (i / 4);
                if i % 4 == 0 {
                    b[p + 2]
                } else if i % 4 == 1 {
                    b[p + 1]
                } else if i % 4 == 2 {
                    b[p]
                } else {
                    b[p + 3]
                }
            },
    )
}

/// Reorder an ARGB32 byte buffer into RGBA channel order.
fn argb_to_rgba(data: &Vec<u8>) -> (r: Vec<u8>)
    requires
        data@.len() % 4 == 0,
    ensures
        r@ == rgba_of_argb(data@),
{
    let len = data.len();
    let mut out: Vec<u8> = Vec::new();
    let mut p: usize = 0;
    while p < len
        invariant
            len == data@.len(),
            len % 4 == 0,
            p % 4 == 0,
            p <= len,
            out@.len() == p,
            forall|k: int| 0 <= k < p ==> out@[k] == rgba_of_argb(data@)[k],
        decreases len - p,
    {
        out.push(data[p + 2]);
        out.push(data[p + 1]);
        out.push(data[p]);
        out.push(data[p + 3]);
        assert forall|k: int| p <= k < p + 4 implies out@[k] == rgba_of_argb(data@)[k] by {
            assert(4 * (k / 4) == p);
        }
        p += 4;
    }
    assert(out@ =~= rgba_of_argb(data@));
    out
}

/// The RGBA byte expansion of packed `u32` ARGB pixels, as X11's
/// `_NET_WM_ICON` delivers them: pixel `p` yields the four bytes
/// `(p >> 16) & 0xFF, (p >> 8) & 0xFF, p & 0xFF, (p >> 24) & 0xFF`.
pub open spec fn rgba_of_packed(px: Seq<u32>) -> Seq<u8> {
    Seq::new(
        4 * px.len(),
        |i: int|
            {
                let p = px[i / 4];
                if i % 4 == 0 {
                    ((p >> 16) & 0xFF) as u8
                } else if i % 4 == 1 {
                    ((p >> 8) & 0xFF) as u8
                } else if i % 4 == 2 {
                    (p & 0xFF) as u8
                } else {
                    ((p >> 24) & 0xFF) as u8
                }
            },
    )
}

/// Expand packed ARGB `u32` pixels into RGBA bytes.
pub fn packed_to_rgba(px: &Vec<u32>) -> (r: Vec<u8>)
    requires
        4 * px@.len() <= usize::MAX,
    ensures
        r@ == rgba_of_packed(px@),
{
    let len = px.len();
    let mut out: Vec<u8> = Vec::new();
    let mut i: usize = 0;
    while i < len
        invariant
            len == px@.len(),
            4 * len <= usize::MAX,
            i <= len,
            out@.len() == 4 * i,
            forall|k: int| 0 <= k < 4 * i ==> out@[k] == rgba_of_packed(px@)[k],
        decreases len - i,
    {
        let p = px[i];
        let red = ((p >> 16) & 0xFF) as u8;
        let green = ((p >> 8) & 0xFF) as u8;
        let blue = (p & 0xFF) as u8;
        let alpha = ((p >> 24) & 0xFF) as u8;
        out.push(red);
        out.push(green);
        out.push(blue);
        out.push(alpha);
        assert forall|k: int| 4 * i <= k < 4 * i + 4 implies out@[k] == rgba_of_packed(px@)[k] by {
            assert(k / 4 == i);
        }
        i += 1;
    }
    assert(out@ =~= rgba_of_packed(px@));
    out
}

/// Decode a raw ARGB32 pixmap buffer into an RGBA icon.
///
/// The one protocol-level failure mode is a buffer whose length is not
/// `width * height * 4`; dimensions whose pixel count cannot even be
/// addressed on this machine are rejected as malformed.
pub fn decode(width: u32, height: u32, data: &Vec<u8>) -> (r: Result<RgbaIcon, EngineError>)
    ensures
        width * height * 4 <= usize::MAX && data@.len() == width * height * 4 ==> (r matches Ok(
            icon,
        ) && icon.width == width && icon.height == height && icon.rgba@ == rgba_of_argb(data@)
            && icon.wf()),
        width * height * 4 <= usize::MAX && data@.len() != width * height * 4 ==> r == Err::<
            RgbaIcon,
            _,
        >(
            (EngineError::InvalidPixmapSize {
                expected: (width * height * 4) as usize,
                actual: data@.len() as usize,
            }),
        ),
        width * height * 4 > usize::MAX ==> r == Err::<RgbaIcon, _>(EngineError::DecodeError),
{
    let pixels = (width as usize).checked_mul(height as usize);
    let expected = match pixels {
        Some(p) => p.checked_mul(4),
        None => None,
    };
    match expected {
        Some(exp) => {
            if data.len() == exp {
                proof {
                    assert(data@.len() % 4 == 0);
                }
                let rgba = argb_to_rgba(data);
                Ok(RgbaIcon { width, height, rgba })
            } else {
                Err(EngineError::InvalidPixmapSize { expected: exp, actual: data.len() })
            }
        },
        None => Err(EngineError::DecodeError),
    }
}

/// What the PNG encoder of the `image` crate produces for an RGBA
/// buffer of the given dimensions. The encoding is a function of the
/// pixel data alone; its bytes are not restated here.
pub uninterp spec fn png_bytes_of(width: u32, height: u32, rgba: Seq<u8>) -> Seq<u8>;

/// Relies on `image::RgbaImage::from_raw` and
/// `image::ImageBuffer::write_to` with `ImageFormat::Png`: a
/// well-formed RGBA buffer is PNG-encoded into an in-memory byte
/// vector, deterministically from the pixel data. A buffer of exactly
/// `width * height * 4` bytes is always accepted, writing to the
/// in-memory vector cannot fail, and the encoder refuses only
/// zero-width or zero-height images, so encoding succeeds whenever
/// both dimensions are nonzero.
#[verifier::external_body]
fn png_encode(icon: &RgbaIcon) -> (r: Option<Vec<u8>>)
    requires
        icon.wf(),
    ensures
        r matches Some(b) ==> b@ == png_bytes_of(icon.width, icon.height, icon.rgba@),
        icon.width > 0 && icon.height > 0 ==> r is Some,
{
    let img = image::RgbaImage::from_raw(icon.width, icon.height, icon.rgba.clone())?;
    let mut buf: Vec<u8> = Vec::new();
    match img.write_to(&mut std::io::Cursor::new(&mut buf), image::ImageFormat::Png) {
        Ok(()) => Some(buf),
        Err(_) => None,
    }
}

/// What the `base64` crate's standard-alphabet padded engine produces
/// for a byte sequence.
pub uninterp spec fn base64_of(bytes: Seq<u8>) -> Seq<char>;

/// Relies on `base64::engine::general_purpose::STANDARD.encode`: the
/// standard padded alphabet, four output characters for every three
/// input bytes, rounded up. The length bound keeps the engine's output
/// size computation from overflowing, on which it would panic.
#[verifier::external_body]
fn base64_encode(bytes: &Vec<u8>) -> (r: String)
    requires
        bytes@.len() <= usize::MAX / 4,
    ensures
        r@ == base64_of(bytes@),
        r@.len() == 4 * ((bytes@.len() + 2) / 3),
{
    base64::engine::general_purpose::STANDARD.encode(bytes)
}

/// Encode raw bytes (an already-encoded image file, or any opaque
/// buffer) as base64 for transport.
pub fn encode_bytes_base64(bytes: &Vec<u8>) -> (r: Option<String>)
    ensures
        bytes@.len() <= usize::MAX / 4 ==> (r matches Some(s) && s@ == base64_of(bytes@)),
        r matches Some(s) ==> s@ == base64_of(bytes@),
{
    if bytes.len() <= usize::MAX / 4 {
        Some(base64_encode(bytes))
    } else {
        None
    }
}

/// Encode an icon as a base64-wrapped PNG for transport.
///
/// Encoding succeeds for every well-formed icon with nonzero
/// dimensions whose PNG bytes the base64 encoder can address.
pub fn encode_icon(icon: &RgbaIcon) -> (r: Option<String>)
    requires
        icon.wf(),
    ensures
        r matches Some(s) ==> s@ == base64_of(png_bytes_of(icon.width, icon.height, icon.rgba@)),
        icon.width > 0 && icon.height > 0 && png_bytes_of(
            icon.width,
            icon.height,
            icon.rgba@,
        ).len() <= usize::MAX / 4 ==> r is Some,
{
    match png_encode(icon) {
        Some(png) => {
            if png.len() <= usize::MAX / 4 {
                Some(base64_encode(&png))
            } else {
                None
            }
        },
        None => None,
    }
}

/// The fitness score of a pixmap for a requested size: the sum of the
/// absolute differences of both dimensions from the target, plus a
/// fixed penalty when either dimension is smaller than requested, so
/// that upscaling a smaller source never beats an adequate one.
pub open spec fn pix_score(w: int, h: int, t: int) -> int {
    vstd::math::abs(w - t) + vstd::math::abs(h - t) + if w < t || h < t {
        10000int
    } else {
        0int
    }
}

/// One entry of an SNI `IconPixmap` property: dimensions and raw
/// ARGB32 bytes, as delivered over DBus.
#[derive(Debug, Clone)]
pub struct SniPixmap {
    pub width: i32,
    pub height: i32,
    pub data: Vec<u8>,
}

/// The index of the best-fitting pixmap for the requested size: the
/// first entry with minimal score. `None` exactly when the list is
/// empty.
pub fn pick_best_pixmap(pixmaps: &Vec<SniPixmap>, target: i32) -> (r: Option<usize>)
    ensures
        (r is None) <==> pixmaps@.len() == 0,
        r matches Some(i) ==> i < pixmaps@.len() && (forall|j: int|
            0 <= j < pixmaps@.len() ==> pix_score(
                pixmaps@[i as int].width as int,
                pixmaps@[i as int].height as int,
                target as int,
            ) <= pix_score(pixmaps@[j].width as int, pixmaps@[j].height as int, target as int))
            && (forall|j: int|
            0 <= j < i ==> pix_score(pixmaps@[j].width as int, pixmaps@[j].height as int, target as int)
                > pix_score(pixmaps@[i as int].width as int, pixmaps@[i as int].height as int, target as int)),
{
    if pixmaps.len() == 0 {
        return None;
    }
    let mut best: usize = 0;
    let mut best_score: i64 = score_exec(&pixmaps[0], target);
    let mut j: usize = 1;
    while j < pixmaps.len()
        invariant
            0 < pixmaps@.len(),
            best < j,
            j <= pixmaps@.len(),
            best_score == pix_score(
                pixmaps@[best as int].width as int,
                pixmaps@[best as int].height as int,
                target as int,
            ),
            forall|k: int|
                0 <= k < j ==> best_score <= pix_score(
                    pixmaps@[k].width as int,
                    pixmaps@[k].height as int,
                    target as int,
                ),
            forall|k: int|
                0 <= k < best ==> pix_score(
                    pixmaps@[k].width as int,
                    pixmaps@[k].height as int,
                    target as int,
                ) > best_score,
        decreases pixmaps@.len() - j,
    {
        let s = score_exec(&pixmaps[j], target);
        if s < best_score {
            best = j;
            best_score = s;
        }
        j += 1;
    }
    Some(best)
}

/// Compute a pixmap's fitness score without overflow.
fn score_exec(p: &SniPixmap, target: i32) -> (r: i64)
    ensures
        r == pix_score(p.width as int, p.height as int, target as int),
{
    let w = p.width as i64;
    let h = p.height as i64;
    let t = target as i64;
    let wd = if w >= t {
        w - t
    } else {
        t - w
    };
    let hd = if h >= t {
        h - t
    } else {
        t - h
    };
    let penalty: i64 = if w < t || h < t {
        10000
    } else {
        0
    };
    wd + hd + penalty
}

/// Pick the transportable icon for an item: a decoded pixmap takes
/// priority over a theme lookup; with neither, there is no icon.
pub fn resolve_icon(pixmap_icon: Option<String>, theme_icon: Option<String>) -> (r: Option<
    String,
>)
    ensures
        pixmap_icon is Some ==> r == pixmap_icon,
        pixmap_icon is None ==> r == theme_icon,
{
    match pixmap_icon {
        Some(s) => Some(s),
        None => theme_icon,
    }
}

/// The icon name looked up when a requested themed icon is missing.
pub fn fallback_icon_name() -> (r: &'static str)
    ensures
        r@ == "image-missing"@,
{
    "image-missing"
}

/// Cache keys are unique, compared as strings.
pub open spec fn cache_keys_unique(s: Seq<(String, String)>) -> bool {
    forall|j: int, k: int| 0 <= j < k < s.len() ==> s[j].0@ != s[k].0@
}

/// The model of the cache: names and their transport-encoded icons.
pub open spec fn cache_model_of(s: Seq<(String, String)>) -> Seq<(Seq<char>, Seq<char>)> {
    s.map_values(|p: (String, String)| (p.0@, p.1@))
}

/// Some cache entry has this name.
pub open spec fn cache_has(s: Seq<(Seq<char>, Seq<char>)>, name: Seq<char>) -> bool {
    exists|j: int| 0 <= j < s.len() && s[j].0 == name
}

/// The index of the cache entry with this name.
pub open spec fn cache_index_of(s: Seq<(Seq<char>, Seq<char>)>, name: Seq<char>) -> int {
    choose|j: int| 0 <= j < s.len() && s[j].0 == name
}

/// The cache of transport-encoded icons, keyed by class or icon name.
/// It avoids repeated theme lookups and disk reads; entries are
/// rebuilt on store, never invalidated — staleness is acceptable since
/// a name's icon rarely changes within a session.
pub struct IconCache {
    pub entries: Vec<(String, String)>,
}

impl IconCache {
    /// Names are unique among entries.
    pub open spec fn wf(&self) -> bool {
        cache_keys_unique(self.entries@)
    }

    /// The cache's model.
    pub open spec fn model(&self) -> Seq<(Seq<char>, Seq<char>)> {
        cache_model_of(self.entries@)
    }

    /// An empty cache.
    pub fn new() -> (r: Self)
        ensures
            r.entries@.len() == 0,
            r.wf(),
    {
        IconCache { entries: Vec::new() }
    }

    /// The cached icon for a name, if one is held.
    pub fn lookup(&self, name: &str) -> (r: Option<String>)
        requires
            self.wf(),
        ensures
            r matches Some(v) ==> cache_has(self.model(), name@) && v@ == self.model()[
                cache_index_of(self.model(), name@)
            ].1,
            r is None ==> !cache_has(self.model(), name@),
    {
        let ghost m = self.model();
        match self.find_entry(name) {
            Some(i) => {
                proof {
                    assert(m[i as int].0 == name@);
                    assert forall|j: int, k: int| 0 <= j < k < m.len() implies m[j].0 != m[k].0 by {
                        assert(self.entries@[j].0@ != self.entries@[k].0@);
                    }
                    assert(cache_has(m, name@));
                    let c = cache_index_of(m, name@);
                    assert(0 <= c < m.len() && m[c].0 == name@);
                    if c < i as int {
                        assert(m[c].0 != m[i as int].0);
                    }
                    if (i as int) < c {
                        assert(m[i as int].0 != m[c].0);
                    }
                }
                Some(self.entries[i].1.clone())
            },
            None => {
                proof {
                    if cache_has(m, name@) {
                        let j = choose|j: int| 0 <= j < m.len() && m[j].0 == name@;
                        assert(self.entries@[j].0@ == name@);
                    }
                }
                None
            },
        }
    }

    /// Store (or rebuild) the icon for a name.
    pub fn store(&mut self, name: &str, icon: String)
        requires
            old(self).wf(),
        ensures
            final(self).wf(),
            final(self).model() == (if cache_has(old(self).model(), name@) {
                old(self).model().update(
                    cache_index_of(old(self).model(), name@),
                    (name@, icon@),
                )
            } else {
                old(self).model().push((name@, icon@))
            }),
    {
        let ghost v0 = self.entries@;
        let ghost m0 = cache_model_of(v0);
        let ghost iv = icon@;
        match self.find_entry(name) {
            Some(i) => {
                let _ = self.entries.remove(i);
                self.entries.insert(i, (String::from_str(name), icon));
                proof {
                    let cur = self.entries@;
                    assert(cur =~= v0.update(i as int, cur[i as int]));
                    assert(cur[i as int].0@ == name@ && cur[i as int].1@ == iv);
                    assert forall|j: int, k: int| 0 <= j < k < cur.len() implies cur[j].0@
                        != cur[k].0@ by {
                        assert(v0[j].0@ != v0[k].0@);
                    }
                    assert(m0[i as int].0 == name@);
                    assert(cache_has(m0, name@));
                    let c = cache_index_of(m0, name@);
                    assert(0 <= c < m0.len() && m0[c].0 == name@);
                    if c < i as int {
                        assert(m0[c].0 != m0[i as int].0);
                    }
                    if (i as int) < c {
                        assert(m0[i as int].0 != m0[c].0);
                    }
                    assert(cache_model_of(cur) =~= m0.update(i as int, (name@, iv)));
                }
            },
            None => {
                self.entries.push((String::from_str(name), icon));
                proof {
                    let cur = self.entries@;
                    assert(cur[cur.len() - 1].0@ == name@ && cur[cur.len() - 1].1@ == iv);
                    assert forall|j: int, k: int| 0 <= j < k < cur.len() implies cur[j].0@
                        != cur[k].0@ by {
                        if k < v0.len() {
                            assert(v0[j].0@ != v0[k].0@);
                        } else {
                            assert(cur[j] == v0[j]);
                            assert(v0[j].0@ != name@);
                        }
                    }
                    assert(cache_model_of(cur) =~= m0.push((name@, iv)));
                    if cache_has(m0, name@) {
                        let j = choose|j: int| 0 <= j < m0.len() && m0[j].0 == name@;
                        assert(v0[j].0@ == name@);
                    }
                }
            },
        }
    }

    /// Find the entry with this name.
    fn find_entry(&self, name: &str) -> (r: Option<usize>)
        requires
            self.wf(),
        ensures
            r matches Some(i) ==> i < self.entries@.len() && self.entries@[i as int].0@ == name@,
            r is None ==> forall|j: int|
                0 <= j < self.entries@.len() ==> (#[trigger] self.entries@[j]).0@ != name@,
    {
        let mut i: usize = 0;
        while i < self.entries.len()
            invariant
                i <= self.entries@.len(),
                forall|k: int| 0 <= k < i ==> (#[trigger] self.entries@[k]).0@ != name@,
            decreases self.entries@.len() - i,
        {
            if crate::text::str_eq(self.entries[i].0.as_str(), name) {
                return Some(i);
            }
            i += 1;
        }
        None
    }
}

/// The candidate file paths for a themed icon name, in lookup order:
/// the hicolor application directories at 16, 22 and 24 pixels, then
/// the shared pixmap directory.
pub fn theme_icon_paths(name: &str) -> (r: Vec<String>)
    ensures
        r@.len() == 4,
        r@[0]@ == "/usr/share/icons/hicolor/16x16/apps/"@ + name@ + ".png"@,
        r@[1]@ == "/usr/share/icons/hicolor/22x22/apps/"@ + name@ + ".png"@,
        r@[2]@ == "/usr/share/icons/hicolor/24x24/apps/"@ + name@ + ".png"@,
        r@[3]@ == "/usr/share/pixmaps/"@ + name@ + ".png"@,
{
    let mut out: Vec<String> = Vec::new();
    let mut p0 = String::from_str("/usr/share/icons/hicolor/16x16/apps/");
    p0.append(name);
    p0.append(".png");
    out.push(p0);
    let mut p1 = String::from_str("/usr/share/icons/hicolor/22x22/apps/");
    p1.append(name);
    p1.append(".png");
    out.push(p1);
    let mut p2 = String::from_str("/usr/share/icons/hicolor/24x24/apps/");
    p2.append(name);
    p2.append(".png");
    out.push(p2);
    let mut p3 = String::from_str("/usr/share/pixmaps/");
    p3.append(name);
    p3.append(".png");
    out.push(p3);
    out
}

} // verus!
