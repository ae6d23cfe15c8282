//! The StatusNotifierItem tray watcher's registry and record model.
//!
//! The host side of the freedesktop SNI protocol claims the watcher
//! name on the session bus, registers items as they announce
//! themselves (or are found by a one-time discovery pass), and drops
//! them when their bus name loses its owner. The DBus I/O lives
//! outside; this module holds the registry state machine, the service
//! name and property parsing, and the record assembly, all verified.

use vstd::prelude::*;

use crate::text::{find_char, spec_starts_with, str_eq, str_starts_with};

verus! {

/// The SNI status of an item.
#[derive(Debug, Clone, Copy, PartialEq, Eq, Structural)]
pub enum TrayStatus {
    Active,
    Passive,
    NeedsAttention,
}

/// The SNI category of an item.
#[derive(Debug, Clone, Copy, PartialEq, Eq, Structural)]
pub enum TrayCategory {
    ApplicationStatus,
    Communications,
    SystemServices,
    Hardware,
}

/// One registered tray item.
#[derive(Debug, Clone)]
pub struct TrayItem {
    /// The item's own `Id` property, or its service name when the
    /// property could not be read.
    pub id: String,
    /// The DBus name the item registered under; unique among current
    /// items.
    pub service_name: String,
    pub icon_name: Option<String>,
    /// Transport-encoded icon bytes, resolved by pixmap-first
    /// priority.
    pub icon_data: Option<String>,
    pub title: Option<String>,
    pub tooltip: Option<String>,
    pub status: TrayStatus,
    pub category: TrayCategory,
    pub menu_path: Option<String>,
}

/// The view of an optional string.
pub open spec fn opt_view(o: Option<String>) -> Option<Seq<char>> {
    match o {
        Some(s) => Some(s@),
        None => None,
    }
}

/// The model of a tray item.
pub ghost struct TrayItemV {
    pub id: Seq<char>,
    pub service_name: Seq<char>,
    pub icon_name: Option<Seq<char>>,
    pub icon_data: Option<Seq<char>>,
    pub title: Option<Seq<char>>,
    pub tooltip: Option<Seq<char>>,
    pub status: TrayStatus,
    pub category: TrayCategory,
    pub menu_path: Option<Seq<char>>,
}

impl View for TrayItem {
    type V = TrayItemV;

    open spec fn view(&self) -> TrayItemV {
        TrayItemV {
            id: self.id@,
            service_name: self.service_name@,
            icon_name: opt_view(self.icon_name),
            icon_data: opt_view(self.icon_data),
            title: opt_view(self.title),
            tooltip: opt_view(self.tooltip),
            status: self.status,
            category: self.category,
            menu_path: opt_view(self.menu_path),
        }
    }
}

/// One menu entry of an item's `com.canonical.dbusmenu` layout.
#[derive(Debug)]
pub struct TrayMenu {
    pub id: i32,
    pub label: String,
    pub enabled: bool,
    pub visible: bool,
    pub menu_type: String,
    pub checked: Option<bool>,
    pub icon: Option<String>,
    pub children: Option<Vec<TrayMenu>>,
}

/// A parser for dbusmenu layouts. Full layout parsing is out of this
/// engine's scope: the layout call itself is an external protocol
/// call, and entries are currently read as standard items.
pub struct MenuParser {}

impl MenuParser {
    /// The placeholder entry read for a layout item: a standard,
    /// enabled, visible entry with no state, icon or children.
    pub fn parse_menu_item() -> (r: TrayMenu)
        ensures
            r.id == 0,
            r.label@ == "Menu Item"@,
            r.enabled,
            r.visible,
            r.menu_type@ == "standard"@,
            r.checked is None,
            r.icon is None,
            r.children is None,
    {
        TrayMenu {
            id: 0,
            label: String::from_str("Menu Item"),
            enabled: true,
            visible: true,
            menu_type: String::from_str("standard"),
            checked: None,
            icon: None,
            children: None,
        }
    }
}

/// The `Status` property decoded: unknown or unreadable values are
/// `Passive`.
pub open spec fn status_of_str(s: Seq<char>) -> TrayStatus {
    if s == "Active"@ {
        TrayStatus::Active
    } else if s == "Passive"@ {
        TrayStatus::Passive
    } else if s == "NeedsAttention"@ {
        TrayStatus::NeedsAttention
    } else {
        TrayStatus::Passive
    }
}

/// The decoded status of an optional property read.
pub open spec fn status_of(o: Option<Seq<char>>) -> TrayStatus {
    match o {
        Some(s) => status_of_str(s),
        None => TrayStatus::Passive,
    }
}

/// Decode a `Status` property string.
pub fn parse_status(s: &str) -> (r: TrayStatus)
    ensures
        r == status_of_str(s@),
{
    if str_eq(s, "Active") {
        TrayStatus::Active
    } else if str_eq(s, "Passive") {
        TrayStatus::Passive
    } else if str_eq(s, "NeedsAttention") {
        TrayStatus::NeedsAttention
    } else {
        TrayStatus::Passive
    }
}

/// The `Category` property decoded: unknown or unreadable values are
/// `ApplicationStatus`.
pub open spec fn category_of_str(s: Seq<char>) -> TrayCategory {
    if s == "ApplicationStatus"@ {
        TrayCategory::ApplicationStatus
    } else if s == "Communications"@ {
        TrayCategory::Communications
    } else if s == "SystemServices"@ {
        TrayCategory::SystemServices
    } else if s == "Hardware"@ {
        TrayCategory::Hardware
    } else {
        TrayCategory::ApplicationStatus
    }
}

/// The decoded category of an optional property read.
pub open spec fn category_of(o: Option<Seq<char>>) -> TrayCategory {
    match o {
        Some(s) => category_of_str(s),
        None => TrayCategory::ApplicationStatus,
    }
}

/// Decode a `Category` property string.
pub fn parse_category(s: &str) -> (r: TrayCategory)
    ensures
        r == category_of_str(s@),
{
    if str_eq(s, "ApplicationStatus") {
        TrayCategory::ApplicationStatus
    } else if str_eq(s, "Communications") {
        TrayCategory::Communications
    } else if str_eq(s, "SystemServices") {
        TrayCategory::SystemServices
    } else if str_eq(s, "Hardware") {
        TrayCategory::Hardware
    } else {
        TrayCategory::ApplicationStatus
    }
}

/// The string has a slash somewhere.
pub open spec fn has_slash(s: Seq<char>) -> bool {
    exists|i: int| 0 <= i < s.len() && s[i] == '/'
}

/// The index of the first slash.
pub open spec fn first_slash(s: Seq<char>) -> int {
    choose|i: int|
        0 <= i < s.len() && s[i] == '/' && (forall|k: int| 0 <= k < i ==> s[k] != '/')
}

/// Split a registration argument into bus name and object path: a
/// bare bus name gets the default `/StatusNotifierItem` path, and a
/// `busname/objectpath` form splits at the first slash (the path keeps
/// its leading slash).
pub fn split_service_name(service: &str) -> (r: (String, String))
    ensures
        has_slash(service@) ==> r.0@ == service@.subrange(0, first_slash(service@)) && r.1@
            == service@.subrange(first_slash(service@), service@.len() as int),
        !has_slash(service@) ==> r.0@ == service@ && r.1@ == "/StatusNotifierItem"@,
{
    let len = service.unicode_len();
    match find_char(service, '/') {
        Some(i) => {
            proof {
                assert(has_slash(service@));
                let c = first_slash(service@);
                assert(0 <= c < service@.len() && service@[c] == '/' && (forall|k: int|
                    0 <= k < c ==> service@[k] != '/'));
                if c < i as int {
                    assert(service@[c] != '/');
                }
                if (i as int) < c {
                    assert(service@[i as int] != '/');
                }
                assert(c == i as int);
            }
            let bus = String::from_str(service.substring_char(0, i));
            let path = String::from_str(service.substring_char(i, len));
            (bus, path)
        },
        None => {
            proof {
                if has_slash(service@) {
                    let w = choose|i: int| 0 <= i < service@.len() && service@[i] == '/';
                    assert(service@[w] != '/');
                }
            }
            (String::from_str(service), String::from_str("/StatusNotifierItem"))
        },
    }
}

/// The DBus name prefix every StatusNotifierItem service carries.
pub fn sni_name_prefix() -> (r: &'static str)
    ensures
        r@ == "org.kde.StatusNotifierItem"@,
{
    "org.kde.StatusNotifierItem"
}

/// Does a bus name belong to the SNI namespace?
pub fn is_sni_service_name(name: &str) -> (r: bool)
    ensures
        r == spec_starts_with(name@, "org.kde.StatusNotifierItem"@),
{
    str_starts_with(name, "org.kde.StatusNotifierItem")
}

/// The property snapshot of one item, read by the I/O layer right
/// after registration: absent values are properties whose read
/// failed.
#[derive(Debug)]
pub struct SniSnapshot {
    pub id: Option<String>,
    pub title: Option<String>,
    pub tooltip: Option<String>,
    pub icon_name: Option<String>,
    pub status: Option<String>,
    pub category: Option<String>,
    /// The transport-encoded icon, resolved pixmap-first by the
    /// caller through the codec.
    pub icon_data: Option<String>,
    pub menu_path: Option<String>,
}

/// Assemble a tray item record from a property snapshot: the item id
/// defaults to the service name, status and category decode with
/// their defaults, everything else carries over.
pub fn build_tray_item(service_name: &str, snap: SniSnapshot) -> (r: TrayItem)
    ensures
        r.id@ == (match snap.id {
            Some(s) => s@,
            None => service_name@,
        }),
        r.service_name@ == service_name@,
        opt_view(r.icon_name) == opt_view(snap.icon_name),
        opt_view(r.icon_data) == opt_view(snap.icon_data),
        opt_view(r.title) == opt_view(snap.title),
        opt_view(r.tooltip) == opt_view(snap.tooltip),
        r.status == status_of(opt_view(snap.status)),
        r.category == category_of(opt_view(snap.category)),
        opt_view(r.menu_path) == opt_view(snap.menu_path),
{
    let id = match snap.id {
        Some(s) => s,
        None => String::from_str(service_name),
    };
    let status = match &snap.status {
        Some(s) => parse_status(s.as_str()),
        None => TrayStatus::Passive,
    };
    let category = match &snap.category {
        Some(s) => parse_category(s.as_str()),
        None => TrayCategory::ApplicationStatus,
    };
    TrayItem {
        id,
        service_name: String::from_str(service_name),
        icon_name: snap.icon_name,
        icon_data: snap.icon_data,
        title: snap.title,
        tooltip: snap.tooltip,
        status,
        category,
        menu_path: snap.menu_path,
    }
}

/// Keys of the registry are unique, compared as strings.
pub open spec fn skeys_unique(s: Seq<(String, TrayItem)>) -> bool {
    forall|j: int, k: int| 0 <= j < k < s.len() ==> s[j].0@ != s[k].0@
}

/// The model of the registry: service names and item models, in
/// registration order.
pub open spec fn items_model_of(s: Seq<(String, TrayItem)>) -> Seq<(Seq<char>, TrayItemV)> {
    s.map_values(|p: (String, TrayItem)| (p.0@, p.1@))
}

/// Model keys are unique.
pub open spec fn mkeys_unique(s: Seq<(Seq<char>, TrayItemV)>) -> bool {
    forall|j: int, k: int| 0 <= j < k < s.len() ==> s[j].0 != s[k].0
}

/// Some model entry has this key.
pub open spec fn tmap_has(s: Seq<(Seq<char>, TrayItemV)>, key: Seq<char>) -> bool {
    exists|j: int| 0 <= j < s.len() && s[j].0 == key
}

/// The index of the model entry with this key.
pub open spec fn tmap_index_of(s: Seq<(Seq<char>, TrayItemV)>, key: Seq<char>) -> int {
    choose|j: int| 0 <= j < s.len() && s[j].0 == key
}

/// Insert or replace the entry with this key.
pub open spec fn upsert_model(
    s: Seq<(Seq<char>, TrayItemV)>,
    key: Seq<char>,
    item: TrayItemV,
) -> Seq<(Seq<char>, TrayItemV)> {
    if tmap_has(s, key) {
        s.update(tmap_index_of(s, key), (key, item))
    } else {
        s.push((key, item))
    }
}

/// Remove the entry with this key, if any.
pub open spec fn remove_model(s: Seq<(Seq<char>, TrayItemV)>, key: Seq<char>) -> Seq<
    (Seq<char>, TrayItemV),
> {
    if tmap_has(s, key) {
        s.remove(tmap_index_of(s, key))
    } else {
        s
    }
}

/// A model entry with key `key` at index `i` pins both membership and
/// the chosen index, since keys are unique.
pub proof fn lemma_tkey_at(s: Seq<(Seq<char>, TrayItemV)>, key: Seq<char>, i: int)
    requires
        mkeys_unique(s),
        0 <= i < s.len(),
        s[i].0 == key,
    ensures
        tmap_has(s, key),
        tmap_index_of(s, key) == i,
{
    assert(tmap_has(s, key));
    let c = tmap_index_of(s, key);
    assert(0 <= c < s.len() && s[c].0 == key);
    if c < i {
        assert(s[c].0 != s[i].0);
    }
    if i < c {
        assert(s[i].0 != s[c].0);
    }
}

/// The model list mirrors the registry: same keys, unique when the
/// registry's are, with membership coinciding key by key.
pub proof fn registry_key_facts(v: Seq<(String, TrayItem)>)
    requires
        skeys_unique(v),
    ensures
        items_model_of(v).len() == v.len(),
        forall|k: int|
            0 <= k < v.len() ==> (#[trigger] items_model_of(v)[k]) == (v[k].0@, v[k].1@),
        mkeys_unique(items_model_of(v)),
        forall|key: Seq<char>| #[trigger] tmap_has(items_model_of(v), key) == (exists|j: int|
            0 <= j < v.len() && v[j].0@ == key),
{
    let s = items_model_of(v);
    assert forall|j: int, k: int| 0 <= j < k < s.len() implies s[j].0 != s[k].0 by {
        assert(v[j].0@ != v[k].0@);
    }
    assert forall|key: Seq<char>| #[trigger] tmap_has(s, key) == (exists|j: int|
        0 <= j < v.len() && v[j].0@ == key) by {
        if exists|j: int| 0 <= j < v.len() && v[j].0@ == key {
            let j = choose|j: int| 0 <= j < v.len() && v[j].0@ == key;
            assert(s[j].0 == key);
            assert(tmap_has(s, key));
        }
        if tmap_has(s, key) {
            let j = choose|j: int| 0 <= j < s.len() && s[j].0 == key;
            assert(v[j].0@ == key);
        }
    }
}

/// The host-side item registry: one record per currently registered
/// service, keyed by the service name string the item registered
/// with. A record exists from successful registration (or discovery)
/// until the bus name loses its owner.
pub struct SniWatcher {
    pub items: Vec<(String, TrayItem)>,
}

impl SniWatcher {
    /// Service names are unique among registered items.
    pub open spec fn wf(&self) -> bool {
        skeys_unique(self.items@)
    }

    /// The registry's model.
    pub open spec fn items_model(&self) -> Seq<(Seq<char>, TrayItemV)> {
        items_model_of(self.items@)
    }

    /// An empty registry.
    pub fn new() -> (r: Self)
        ensures
            r.items@.len() == 0,
            r.wf(),
    {
        SniWatcher { items: Vec::new() }
    }

    /// Find the registered entry for a service name.
    fn find_item(&self, service_name: &str) -> (r: Option<usize>)
        requires
            self.wf(),
        ensures
            r matches Some(i) ==> i < self.items@.len() && self.items@[i as int].0@
                == service_name@,
            r is None ==> forall|j: int|
                0 <= j < self.items@.len() ==> (#[trigger] self.items@[j]).0@ != service_name@,
    {
        let mut i: usize = 0;
        while i < self.items.len()
            invariant
                i <= self.items@.len(),
                forall|k: int| 0 <= k < i ==> (#[trigger] self.items@[k]).0@ != service_name@,
            decreases self.items@.len() - i,
        {
            if str_eq(self.items[i].0.as_str(), service_name) {
                return Some(i);
            }
            i += 1;
        }
        None
    }

    /// Register an item under its service name, replacing any record
    /// already held for that name, and tell observers. Exactly one
    /// notification is emitted per registration.
    pub fn register_item(&mut self, service_name: &str, item: TrayItem) -> (notify: bool)
        requires
            old(self).wf(),
        ensures
            final(self).wf(),
            final(self).items_model() == upsert_model(
                old(self).items_model(),
                service_name@,
                item@,
            ),
            notify,
    {
        let ghost v0 = self.items@;
        let ghost s0 = items_model_of(v0);
        proof {
            registry_key_facts(v0);
        }
        let ghost iv = item@;
        match self.find_item(service_name) {
            Some(i) => {
                let _ = self.items.remove(i);
                self.items.insert(i, (String::from_str(service_name), item));
                proof {
                    let cur = self.items@;
                    assert(cur =~= v0.update(i as int, cur[i as int]));
                    assert(cur[i as int].0@ == service_name@ && cur[i as int].1@ == iv);
                    lemma_tkey_at(s0, service_name@, i as int);
                    assert forall|j: int, k: int| 0 <= j < k < cur.len() implies cur[j].0@
                        != cur[k].0@ by {
                        assert(v0[j].0@ != v0[k].0@);
                    }
                    assert(items_model_of(cur) =~= s0.update(
                        i as int,
                        (service_name@, iv),
                    ));
                }
            },
            None => {
                self.items.push((String::from_str(service_name), item));
                proof {
                    let cur = self.items@;
                    assert(cur[cur.len() - 1].0@ == service_name@ && cur[cur.len() - 1].1@ == iv);
                    assert forall|j: int, k: int| 0 <= j < k < cur.len() implies cur[j].0@
                        != cur[k].0@ by {
                        if k < v0.len() {
                            assert(v0[j].0@ != v0[k].0@);
                        } else {
                            assert(cur[j] == v0[j]);
                            assert(v0[j].0@ != service_name@);
                        }
                    }
                    assert(items_model_of(cur) =~= s0.push((service_name@, iv)));
                    assert(!tmap_has(s0, service_name@));
                }
            },
        }
        true
    }

    /// Drop the record for a service name, if one is held, and tell
    /// observers. Exactly one notification is emitted per
    /// unregistration, whether or not a record was held.
    pub fn unregister_item(&mut self, service_name: &str) -> (notify: bool)
        requires
            old(self).wf(),
        ensures
            final(self).wf(),
            final(self).items_model() == remove_model(old(self).items_model(), service_name@),
            notify,
    {
        let ghost v0 = self.items@;
        let ghost s0 = items_model_of(v0);
        proof {
            registry_key_facts(v0);
        }
        match self.find_item(service_name) {
            Some(i) => {
                let _ = self.items.remove(i);
                proof {
                    let cur = self.items@;
                    lemma_tkey_at(s0, service_name@, i as int);
                    v0.remove_ensures(i as int);
                    s0.remove_ensures(i as int);
                    assert forall|j: int, k: int| 0 <= j < k < cur.len() implies cur[j].0@
                        != cur[k].0@ by {
                        let j0 = if j < i as int { j } else { j + 1 };
                        let k0 = if k < i as int { k } else { k + 1 };
                        assert(cur[j] == v0[j0]);
                        assert(cur[k] == v0[k0]);
                        assert(v0[j0].0@ != v0[k0].0@);
                    }
                    assert(items_model_of(cur) =~= s0.remove(i as int));
                }
            },
            None => {
                proof {
                    assert(!tmap_has(s0, service_name@));
                }
            },
        }
        true
    }

    /// React to a `NameOwnerChanged` signal: a name in the SNI
    /// namespace whose new owner is empty has died, so its record is
    /// dropped and observers are told (exactly one notification);
    /// every other signal is ignored.
    pub fn handle_name_owner_changed(&mut self, name: &str, new_owner: &str) -> (notify: bool)
        requires
            old(self).wf(),
        ensures
            final(self).wf(),
            new_owner@.len() == 0 && spec_starts_with(name@, "org.kde.StatusNotifierItem"@)
                ==> final(self).items_model() == remove_model(old(self).items_model(), name@)
                && notify,
            !(new_owner@.len() == 0 && spec_starts_with(name@, "org.kde.StatusNotifierItem"@))
                ==> final(self).items_model() == old(self).items_model() && !notify,
    {
        if new_owner.unicode_len() == 0 && is_sni_service_name(name) {
            self.unregister_item(name)
        } else {
            false
        }
    }

    /// The currently registered items, in registration order.
    pub fn get_tray_items(&self) -> (r: Vec<TrayItem>)
        requires
            self.wf(),
        ensures
            r@.len() == self.items_model().len(),
            forall|j: int|
                0 <= j < r@.len() ==> (#[trigger] r@[j])@ == self.items_model()[j].1,
    {
        let mut out: Vec<TrayItem> = Vec::new();
        let mut i: usize = 0;
        while i < self.items.len()
            invariant
                i <= self.items@.len(),
                out@.len() == i,
                forall|j: int| 0 <= j < i ==> (#[trigger] out@[j])@ == self.items@[j].1@,
            decreases self.items@.len() - i,
        {
            out.push(clone_tray_item(&self.items[i].1));
            i += 1;
        }
        out
    }
}

/// Copy a tray item (views equal).
pub fn clone_tray_item(item: &TrayItem) -> (r: TrayItem)
    ensures
        r@ == item@,
{
    TrayItem {
        id: item.id.clone(),
        service_name: item.service_name.clone(),
        icon_name: clone_opt_string(&item.icon_name),
        icon_data: clone_opt_string(&item.icon_data),
        title: clone_opt_string(&item.title),
        tooltip: clone_opt_string(&item.tooltip),
        status: item.status,
        category: item.category,
        menu_path: clone_opt_string(&item.menu_path),
    }
}

/// Copy an optional string (views equal).
fn clone_opt_string(o: &Option<String>) -> (r: Option<String>)
    ensures
        opt_view(r) == opt_view(*o),
{
    match o {
        Some(s) => Some(s.clone()),
        None => None,
    }
}

/// The views of a sequence of name strings.
pub open spec fn str_views(s: Seq<String>) -> Seq<Seq<char>> {
    s.map_values(|n: String| n@)
}

/// The names of the discovery pass that belong to the SNI namespace,
/// in bus order.
pub open spec fn sni_filter(s: Seq<Seq<char>>) -> Seq<Seq<char>>
    decreases s.len(),
{
    if s.len() == 0 {
        Seq::empty()
    } else {
        sni_filter(s.drop_last()) + if spec_starts_with(
            s.last(),
            "org.kde.StatusNotifierItem"@,
        ) {
            seq![s.last()]
        } else {
            Seq::empty()
        }
    }
}

/// The one-time discovery pass's selection: of all names currently on
/// the bus, those in the SNI namespace, which the watcher registers
/// as if they had just announced themselves.
pub fn sni_candidates(names: &Vec<String>) -> (r: Vec<String>)
    ensures
        str_views(r@) == sni_filter(str_views(names@)),
{
    let ghost nv = str_views(names@);
    let mut out: Vec<String> = Vec::new();
    let mut i: usize = 0;
    while i < names.len()
        invariant
            nv == str_views(names@),
            i <= names@.len(),
            str_views(out@) == sni_filter(nv.take(i as int)),
        decreases names@.len() - i,
    {
        let ghost prev = out@;
        if is_sni_service_name(names[i].as_str()) {
            out.push(names[i].clone());
        }
        proof {
            assert(nv.take(i + 1).drop_last() =~= nv.take(i as int));
            assert(nv.take(i + 1).last() == nv[i as int]);
            if spec_starts_with(nv[i as int], "org.kde.StatusNotifierItem"@) {
                assert(str_views(out@) =~= str_views(prev) + seq![nv[i as int]]);
            } else {
                assert(str_views(out@) =~= str_views(prev));
            }
            assert(str_views(out@) =~= sni_filter(nv.take(i + 1)));
        }
        i += 1;
    }
    proof {
        assert(nv.take(nv.len() as int) =~= nv);
    }
    out
}

/// The tray lifecycle: registering a service and then losing its bus
/// name leaves no record of it, whatever the registry held before.
pub proof fn lemma_tray_lifecycle(
    m: Seq<(Seq<char>, TrayItemV)>,
    name: Seq<char>,
    item: TrayItemV,
)
    requires
        mkeys_unique(m),
    ensures
        !tmap_has(remove_model(upsert_model(m, name, item), name), name),
{
    let m1 = upsert_model(m, name, item);
    if tmap_has(m, name) {
        let i = tmap_index_of(m, name);
        assert(0 <= i < m.len() && m[i].0 == name);
        assert(m1 == m.update(i, (name, item)));
        assert forall|j: int, k: int| 0 <= j < k < m1.len() implies m1[j].0 != m1[k].0 by {
            assert(m[j].0 != m[k].0);
        }
        lemma_tkey_at(m1, name, i);
        let m2 = remove_model(m1, name);
        assert(m2 == m1.remove(i));
        m1.remove_ensures(i);
        if tmap_has(m2, name) {
            let j = tmap_index_of(m2, name);
            assert(0 <= j < m2.len() && m2[j].0 == name);
            let j0 = if j < i { j } else { j + 1 };
            assert(m2[j] == m1[j0]);
            assert(m1[j0].0 == name && m1[i].0 == name && j0 != i);
            if j0 < i {
                assert(m1[j0].0 != m1[i].0);
            } else {
                assert(m1[i].0 != m1[j0].0);
            }
        }
    } else {
        assert(m1 == m.push((name, item)));
        assert forall|j: int, k: int| 0 <= j < k < m1.len() implies m1[j].0 != m1[k].0 by {
            if k < m.len() {
                assert(m[j].0 != m[k].0);
            } else {
                assert(m1[j] == m[j]);
                if m[j].0 == name {
                    assert(tmap_has(m, name));
                }
            }
        }
        lemma_tkey_at(m1, name, m.len() as int);
        let m2 = remove_model(m1, name);
        assert(m2 == m1.remove(m.len() as int));
        m1.remove_ensures(m.len() as int);
        assert(m2 =~= m);
        if tmap_has(m2, name) {
            let j = tmap_index_of(m2, name);
            assert(m[j].0 == name);
            assert(tmap_has(m, name));
        }
    }
}

} // verus!
