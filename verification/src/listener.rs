//! Per-item live tracking: listener lifecycle and update decisions.
//!
//! Each registered tray item gets exactly one background listener that
//! multiplexes its status, title and icon signal streams. The I/O
//! layer owns the actual tasks; this module owns the bookkeeping that
//! makes "abort on replace" checkable: listeners are named by tokens,
//! and registering an id that already has one hands the old token back
//! for cancellation before the new one is recorded. It also holds the
//! verified assembly of the records and incremental updates the
//! listeners emit.

use vstd::prelude::*;

use crate::icon::{
    base64_of, decode, encode_icon, pix_score, png_bytes_of, rgba_of_argb, SniPixmap,
};
use crate::text::str_eq;

verus! {

/// The bookkeeping of live listener tasks: one token per item id,
/// and a counter from which fresh tokens are drawn. The I/O layer
/// maps each token to the task it spawned and aborts the tokens this
/// registry hands back.
pub struct ListenerRegistry {
    pub tasks: Vec<(String, u64)>,
    pub next_token: u64,
}

/// Keys of the task list are unique, compared as strings.
pub open spec fn lkeys_unique(s: Seq<(String, u64)>) -> bool {
    forall|j: int, k: int| 0 <= j < k < s.len() ==> s[j].0@ != s[k].0@
}

/// The model of the task list.
pub open spec fn tasks_model_of(s: Seq<(String, u64)>) -> Seq<(Seq<char>, u64)> {
    s.map_values(|p: (String, u64)| (p.0@, p.1))
}

/// Some model entry has this id.
pub open spec fn lmap_has(s: Seq<(Seq<char>, u64)>, id: Seq<char>) -> bool {
    exists|j: int| 0 <= j < s.len() && s[j].0 == id
}

/// The index of the model entry with this id.
pub open spec fn lmap_index_of(s: Seq<(Seq<char>, u64)>, id: Seq<char>) -> int {
    choose|j: int| 0 <= j < s.len() && s[j].0 == id
}

impl ListenerRegistry {
    /// Ids are unique and every recorded token is older than the
    /// counter.
    pub open spec fn wf(&self) -> bool {
        lkeys_unique(self.tasks@) && (forall|j: int|
            0 <= j < self.tasks@.len() ==> (#[trigger] self.tasks@[j]).1 < self.next_token)
    }

    /// The registry's model.
    pub open spec fn tasks_model(&self) -> Seq<(Seq<char>, u64)> {
        tasks_model_of(self.tasks@)
    }

    /// An empty registry.
    pub fn new() -> (r: Self)
        ensures
            r.tasks@.len() == 0,
            r.next_token == 0,
            r.wf(),
    {
        ListenerRegistry { tasks: Vec::new(), next_token: 0 }
    }

    /// Find the entry for an id.
    fn find_task(&self, id: &str) -> (r: Option<usize>)
        ensures
            r matches Some(i) ==> i < self.tasks@.len() && self.tasks@[i as int].0@ == id@,
            r is None ==> forall|j: int|
                0 <= j < self.tasks@.len() ==> (#[trigger] self.tasks@[j]).0@ != id@,
    {
        let mut i: usize = 0;
        while i < self.tasks.len()
            invariant
                i <= self.tasks@.len(),
                forall|k: int| 0 <= k < i ==> (#[trigger] self.tasks@[k]).0@ != id@,
            decreases self.tasks@.len() - i,
        {
            if str_eq(self.tasks[i].0.as_str(), id) {
                return Some(i);
            }
            i += 1;
        }
        None
    }

    /// Register the listener for an item id: a fresh token is
    /// recorded for the id, and if the id already had one, that old
    /// token is returned so its task is aborted first — replace,
    /// never duplicate.
    pub fn register(&mut self, id: &str) -> (r: (Option<u64>, u64))
        requires
            old(self).wf(),
            old(self).next_token < u64::MAX,
        ensures
            final(self).wf(),
            r.1 == old(self).next_token,
            final(self).next_token == old(self).next_token + 1,
            lmap_has(final(self).tasks_model(), id@),
            final(self).tasks_model()[lmap_index_of(final(self).tasks_model(), id@)] == (
                id@,
                r.1,
            ),
            forall|j: int|
                0 <= j < final(self).tasks_model().len() && j != lmap_index_of(
                    final(self).tasks_model(),
                    id@,
                ) ==> #[trigger] final(self).tasks_model()[j] == old(self).tasks_model()[j],
            match r.0 {
                Some(t) => lmap_has(old(self).tasks_model(), id@) && old(self).tasks_model()[
                    lmap_index_of(old(self).tasks_model(), id@)
                ].1 == t && final(self).tasks_model().len() == old(self).tasks_model().len(),
                None => !lmap_has(old(self).tasks_model(), id@)
                    && final(self).tasks_model().len() == old(self).tasks_model().len() + 1,
            },
    {
        let ghost v0 = self.tasks@;
        let ghost s0 = tasks_model_of(v0);
        let token = self.next_token;
        self.next_token = token + 1;
        match self.find_task(id) {
            Some(i) => {
                let (_, old_token) = self.tasks.remove(i);
                self.tasks.insert(i, (String::from_str(id), token));
                proof {
                    let cur = self.tasks@;
                    assert(cur =~= v0.update(i as int, cur[i as int]));
                    assert(cur[i as int].0@ == id@ && cur[i as int].1 == token);
                    assert forall|j: int, k: int| 0 <= j < k < cur.len() implies cur[j].0@
                        != cur[k].0@ by {
                        assert(v0[j].0@ != v0[k].0@);
                    }
                    assert(s0[i as int] == (id@, old_token));
                    lemma_lkey_at(s0, id@, i as int);
                    let s1 = tasks_model_of(cur);
                    assert(s1 =~= s0.update(i as int, (id@, token)));
                    lemma_lkey_at(s1, id@, i as int);
                }
                (Some(old_token), token)
            },
            None => {
                self.tasks.push((String::from_str(id), token));
                proof {
                    let cur = self.tasks@;
                    assert(cur[cur.len() - 1].0@ == id@ && cur[cur.len() - 1].1 == token);
                    assert forall|j: int, k: int| 0 <= j < k < cur.len() implies cur[j].0@
                        != cur[k].0@ by {
                        if k < v0.len() {
                            assert(v0[j].0@ != v0[k].0@);
                        } else {
                            assert(cur[j] == v0[j]);
                            assert(v0[j].0@ != id@);
                        }
                    }
                    let s1 = tasks_model_of(cur);
                    assert(s1 =~= s0.push((id@, token)));
                    lemma_lkey_at(s1, id@, s0.len() as int);
                    if lmap_has(s0, id@) {
                        let j = choose|j: int| 0 <= j < s0.len() && s0[j].0 == id@;
                        assert(v0[j].0@ == id@);
                    }
                }
                (None, token)
            },
        }
    }

    /// Remove the listener for an id, handing its token back for
    /// cancellation; an unknown id removes nothing.
    pub fn remove(&mut self, id: &str) -> (r: Option<u64>)
        requires
            old(self).wf(),
        ensures
            final(self).wf(),
            final(self).next_token == old(self).next_token,
            !lmap_has(final(self).tasks_model(), id@),
            match r {
                Some(t) => lmap_has(old(self).tasks_model(), id@) && old(self).tasks_model()[
                    lmap_index_of(old(self).tasks_model(), id@)
                ].1 == t && final(self).tasks_model() == old(self).tasks_model().remove(
                    lmap_index_of(old(self).tasks_model(), id@),
                ),
                None => !lmap_has(old(self).tasks_model(), id@) && final(self).tasks_model()
                    == old(self).tasks_model(),
            },
    {
        let ghost v0 = self.tasks@;
        let ghost s0 = tasks_model_of(v0);
        match self.find_task(id) {
            Some(i) => {
                let (_, old_token) = self.tasks.remove(i);
                proof {
                    let cur = self.tasks@;
                    assert(s0[i as int] == (id@, old_token));
                    lemma_lkey_at(s0, id@, i as int);
                    v0.remove_ensures(i as int);
                    s0.remove_ensures(i as int);
                    assert forall|j: int, k: int| 0 <= j < k < cur.len() implies cur[j].0@
                        != cur[k].0@ by {
                        let j0 = if j < i as int { j } else { j + 1 };
                        let k0 = if k < i as int { k } else { k + 1 };
                        assert(cur[j] == v0[j0]);
                        assert(cur[k] == v0[k0]);
                        assert(v0[j0].0@ != v0[k0].0@);
                    }
                    let s1 = tasks_model_of(cur);
                    assert(s1 =~= s0.remove(i as int));
                    if lmap_has(s1, id@) {
                        let j = lmap_index_of(s1, id@);
                        assert(0 <= j < s1.len() && s1[j].0 == id@);
                        let j0 = if j < i as int { j } else { j + 1 };
                        assert(s1[j] == s0[j0]);
                        assert(cur[j].0@ == id@);
                        assert(v0[j0].0@ == id@ && v0[i as int].0@ == id@ && j0 != i as int);
                        if j0 < i as int {
                            assert(v0[j0].0@ != v0[i as int].0@);
                        } else {
                            assert(v0[i as int].0@ != v0[j0].0@);
                        }
                    }
                }
                Some(old_token)
            },
            None => {
                proof {
                    if lmap_has(s0, id@) {
                        let j = choose|j: int| 0 <= j < s0.len() && s0[j].0 == id@;
                        assert(v0[j].0@ == id@);
                    }
                }
                None
            },
        }
    }
}

/// A model entry with id `id` at index `i` pins both membership and
/// the chosen index, when ids are unique.
proof fn lemma_lkey_at(s: Seq<(Seq<char>, u64)>, id: Seq<char>, i: int)
    requires
        forall|j: int, k: int| 0 <= j < k < s.len() ==> s[j].0 != s[k].0,
        0 <= i < s.len(),
        s[i].0 == id,
    ensures
        lmap_has(s, id),
        lmap_index_of(s, id) == i,
{
    assert(lmap_has(s, id));
    let c = lmap_index_of(s, id);
    assert(0 <= c < s.len() && s[c].0 == id);
    if c < i {
        assert(s[c].0 != s[i].0);
    }
    if i < c {
        assert(s[i].0 != s[c].0);
    }
}

/// Listener uniqueness: whatever tokens were held before, after a
/// registration the id has exactly one listener entry, it carries the
/// fresh token, and any index holding the id is that one entry.
pub proof fn lemma_listener_unique(r: ListenerRegistry, id: Seq<char>)
    requires
        r.wf(),
        lmap_has(r.tasks_model(), id),
    ensures
        forall|j: int, k: int|
            (0 <= j < r.tasks_model().len() && 0 <= k < r.tasks_model().len()
                && r.tasks_model()[j].0 == id && r.tasks_model()[k].0 == id) ==> j == k,
{
    let s = r.tasks_model();
    assert forall|j: int, k: int|
        (0 <= j < s.len() && 0 <= k < s.len() && s[j].0 == id && s[k].0 == id) implies j == k by {
        assert(s[j].0 == r.tasks@[j].0@);
        assert(s[k].0 == r.tasks@[k].0@);
        if j < k {
            assert(r.tasks@[j].0@ != r.tasks@[k].0@);
        }
        if k < j {
            assert(r.tasks@[k].0@ != r.tasks@[j].0@);
        }
    }
}

/// One transport-ready icon: dimensions and base64 PNG bytes.
#[derive(Debug, Clone)]
pub struct IconData {
    pub width: i32,
    pub height: i32,
    pub data: String,
}

/// `i` names the first best-fitting pixmap for the target size.
pub open spec fn is_first_best(s: Seq<SniPixmap>, t: int, i: int) -> bool {
    &&& 0 <= i < s.len()
    &&& (forall|j: int|
        0 <= j < s.len() ==> pix_score(s[i].width as int, s[i].height as int, t) <= pix_score(
            (#[trigger] s[j]).width as int,
            s[j].height as int,
            t,
        ))
    &&& (forall|j: int|
        0 <= j < i ==> pix_score((#[trigger] s[j]).width as int, s[j].height as int, t)
            > pix_score(s[i].width as int, s[i].height as int, t))
}

/// The first best-fitting pixmap is unique: two indices that both
/// name it are the same index.
pub proof fn lemma_first_best_unique(s: Seq<SniPixmap>, t: int, i: int, j: int)
    requires
        is_first_best(s, t, i),
        is_first_best(s, t, j),
    ensures
        i == j,
{
    if i < j {
        assert(pix_score(s[i].width as int, s[i].height as int, t) > pix_score(
            s[j].width as int,
            s[j].height as int,
            t,
        ));
    }
    if j < i {
        assert(pix_score(s[j].width as int, s[j].height as int, t) > pix_score(
            s[i].width as int,
            s[i].height as int,
            t,
        ));
    }
}

/// The winning pixmap is malformed: negative dimensions, a byte count
/// other than four per pixel, or a pixel count this machine cannot
/// address.
pub open spec fn first_best_malformed(s: Seq<SniPixmap>, t: int, i: int) -> bool {
    ||| s[i].width < 0
    ||| s[i].height < 0
    ||| s[i].width * s[i].height * 4 > usize::MAX
    ||| s[i].data.len() != s[i].width * s[i].height * 4
}

/// The transport icon of an item's pixmap list: the best-fitting
/// pixmap for the requested size, decoded from ARGB32 and re-encoded
/// as base64 PNG. An empty list or a malformed winner yields no icon;
/// a well-formed winner with nonzero dimensions always yields one,
/// provided its PNG bytes fit the transport encoder.
pub fn icon_from_pixmaps(pixmaps: &Vec<SniPixmap>, requested: i32) -> (r: Option<IconData>)
    ensures
        pixmaps@.len() == 0 ==> r is None,
        r matches Some(d) ==> (exists|i: int|
            {
                &&& #[trigger] is_first_best(pixmaps@, requested as int, i)
                &&& pixmaps@[i].width >= 0
                &&& pixmaps@[i].height >= 0
                &&& d.width == pixmaps@[i].width
                &&& d.height == pixmaps@[i].height
                &&& d.data@ == base64_of(
                    png_bytes_of(
                        pixmaps@[i].width as u32,
                        pixmaps@[i].height as u32,
                        rgba_of_argb(pixmaps@[i].data@),
                    ),
                )
            }),
        forall|i: int|
            #[trigger] is_first_best(pixmaps@, requested as int, i) && first_best_malformed(
                pixmaps@,
                requested as int,
                i,
            ) ==> r is None,
        forall|i: int|
            #[trigger] is_first_best(pixmaps@, requested as int, i) && !first_best_malformed(
                pixmaps@,
                requested as int,
                i,
            ) && pixmaps@[i].width > 0 && pixmaps@[i].height > 0 && png_bytes_of(
                pixmaps@[i].width as u32,
                pixmaps@[i].height as u32,
                rgba_of_argb(pixmaps@[i].data@),
            ).len() <= usize::MAX / 4 ==> r is Some,
{
    let best = match crate::icon::pick_best_pixmap(pixmaps, requested) {
        Some(i) => i,
        None => {
            return None;
        },
    };
    proof {
        assert(is_first_best(pixmaps@, requested as int, best as int));
        assert forall|i: int|
            #[trigger] is_first_best(pixmaps@, requested as int, i) implies i == best as int by {
            lemma_first_best_unique(pixmaps@, requested as int, i, best as int);
        }
    }
    let p = &pixmaps[best];
    if p.width < 0 || p.height < 0 {
        return None;
    }
    let icon = match decode(p.width as u32, p.height as u32, &p.data) {
        Ok(icon) => icon,
        Err(_) => {
            proof {
                assert(first_best_malformed(pixmaps@, requested as int, best as int));
            }
            return None;
        },
    };
    proof {
        assert(!first_best_malformed(pixmaps@, requested as int, best as int));
    }
    match encode_icon(&icon) {
        Some(data) => Some(IconData { width: p.width, height: p.height, data }),
        None => None,
    }
}

/// The full record a listener publishes when an item appears: the
/// title defaults to empty when its read failed, the rest carries
/// over.
#[derive(Debug, Clone)]
pub struct TrayItemData {
    pub id: String,
    pub title: String,
    pub status: String,
    pub icon: Option<IconData>,
    pub has_menu: bool,
}

/// Assemble the record published on an item's appearance.
pub fn build_item_data(
    id: &str,
    title: Option<String>,
    status: String,
    has_menu: bool,
    icon: Option<IconData>,
) -> (r: TrayItemData)
    ensures
        r.id@ == id@,
        r.title@ == (match title {
            Some(t) => t@,
            None => Seq::<char>::empty(),
        }),
        r.status@ == status@,
        r.has_menu == has_menu,
        r.icon == icon,
{
    let t = match title {
        Some(t) => t,
        None => String::new(),
    };
    TrayItemData { id: String::from_str(id), title: t, status, icon, has_menu }
}

/// Which of an item's three signal streams fired.
#[derive(Debug, Clone, Copy, PartialEq, Eq, Structural)]
pub enum ItemSignal {
    Status,
    Title,
    Icon,
}

/// One incremental update a listener emits: a single re-read
/// property, never a full record.
#[derive(Debug)]
pub enum ItemUpdate {
    Status { id: String, status: String },
    Title { id: String, title: String },
    Icon { id: String, icon: Option<IconData> },
}

/// The update to emit after a signal fired and the corresponding
/// property was re-read: a failed status or title re-read emits
/// nothing; a failed icon re-read emits an explicit empty icon so
/// observers drop the stale one.
pub fn item_update(
    id: &str,
    signal: ItemSignal,
    fetched_text: Option<String>,
    fetched_icon: Option<IconData>,
) -> (r: Option<ItemUpdate>)
    ensures
        signal is Status ==> (match fetched_text {
            Some(s) => r matches Some(u) && u matches ItemUpdate::Status { id: uid, status }
                && uid@ == id@ && status@ == s@,
            None => r is None,
        }),
        signal is Title ==> (match fetched_text {
            Some(s) => r matches Some(u) && u matches ItemUpdate::Title { id: uid, title }
                && uid@ == id@ && title@ == s@,
            None => r is None,
        }),
        signal is Icon ==> (r matches Some(u) && u matches ItemUpdate::Icon { id: uid, icon }
            && uid@ == id@ && icon == fetched_icon),
{
    match signal {
        ItemSignal::Status => {
            match fetched_text {
                Some(s) => Some(ItemUpdate::Status { id: String::from_str(id), status: s }),
                None => None,
            }
        },
        ItemSignal::Title => {
            match fetched_text {
                Some(s) => Some(ItemUpdate::Title { id: String::from_str(id), title: s }),
                None => None,
            }
        },
        ItemSignal::Icon => {
            Some(ItemUpdate::Icon { id: String::from_str(id), icon: fetched_icon })
        },
    }
}

} // verus!
