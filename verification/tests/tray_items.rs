use vpanel_core::listener::{
    build_item_data, icon_from_pixmaps, item_update, IconData, ItemSignal, ItemUpdate,
    ListenerRegistry,
};
use vpanel_core::icon::SniPixmap;
use vpanel_core::systray::{
    first_nonempty_title, tray_event_triggers_notify, SystemTrayManager, TrayBackend,
    TrayMonitorEvent, WaylandTrayManager, X11TrayManager, X11TrayWindow,
};
use vpanel_core::tray::{
    build_tray_item, parse_category, parse_status, sni_candidates, split_service_name,
    MenuParser, SniSnapshot, SniWatcher, TrayCategory, TrayStatus,
};

fn snapshot() -> SniSnapshot {
    SniSnapshot {
        id: None,
        title: Some("Network".to_string()),
        tooltip: None,
        icon_name: Some("nm-applet".to_string()),
        status: Some("Active".to_string()),
        category: Some("Hardware".to_string()),
        icon_data: None,
        menu_path: Some("/Menu".to_string()),
    }
}

#[test]
fn tray_lifecycle_register_then_name_loss() {
    let mut watcher = SniWatcher::new();
    let name = "org.kde.StatusNotifierItem-42";
    let item = build_tray_item(name, snapshot());
    assert!(watcher.register_item(name, item));
    assert_eq!(watcher.get_tray_items().len(), 1);

    let mut notifications: u32 = 0;
    if watcher.handle_name_owner_changed(name, "") {
        notifications += 1;
    }
    assert_eq!(notifications, 1);
    assert_eq!(watcher.get_tray_items().len(), 0);
}

#[test]
fn name_owner_change_ignores_other_names() {
    let mut watcher = SniWatcher::new();
    let item = build_tray_item("org.kde.StatusNotifierItem-1", snapshot());
    watcher.register_item("org.kde.StatusNotifierItem-1", item);
    // A non-SNI name losing its owner changes nothing and stays silent.
    assert!(!watcher.handle_name_owner_changed("org.freedesktop.Notifications", ""));
    // An SNI name acquiring a new owner (nonempty) is not a removal.
    assert!(!watcher.handle_name_owner_changed("org.kde.StatusNotifierItem-1", ":1.99"));
    assert_eq!(watcher.get_tray_items().len(), 1);
}

#[test]
fn register_replaces_existing_record() {
    let mut watcher = SniWatcher::new();
    let name = "org.kde.StatusNotifierItem-7";
    watcher.register_item(name, build_tray_item(name, snapshot()));
    let mut second = snapshot();
    second.title = Some("Updated".to_string());
    watcher.register_item(name, build_tray_item(name, second));
    let items = watcher.get_tray_items();
    assert_eq!(items.len(), 1);
    assert_eq!(items[0].title.as_deref(), Some("Updated"));
}

#[test]
fn build_tray_item_defaults() {
    let item = build_tray_item("org.kde.StatusNotifierItem-9", snapshot());
    // The Id property was unreadable: the service name stands in.
    assert_eq!(item.id, "org.kde.StatusNotifierItem-9");
    assert_eq!(item.service_name, "org.kde.StatusNotifierItem-9");
    assert_eq!(item.status, TrayStatus::Active);
    assert_eq!(item.category, TrayCategory::Hardware);
    assert_eq!(item.icon_name.as_deref(), Some("nm-applet"));
    assert_eq!(item.menu_path.as_deref(), Some("/Menu"));

    let empty = SniSnapshot {
        id: Some("my-id".to_string()),
        title: None,
        tooltip: None,
        icon_name: None,
        status: None,
        category: None,
        icon_data: None,
        menu_path: None,
    };
    let item = build_tray_item("svc", empty);
    assert_eq!(item.id, "my-id");
    assert_eq!(item.status, TrayStatus::Passive);
    assert_eq!(item.category, TrayCategory::ApplicationStatus);
}

#[test]
fn status_and_category_parsing() {
    assert_eq!(parse_status("Active"), TrayStatus::Active);
    assert_eq!(parse_status("Passive"), TrayStatus::Passive);
    assert_eq!(parse_status("NeedsAttention"), TrayStatus::NeedsAttention);
    assert_eq!(parse_status("Nonsense"), TrayStatus::Passive);
    assert_eq!(parse_status(""), TrayStatus::Passive);
    assert_eq!(parse_category("ApplicationStatus"), TrayCategory::ApplicationStatus);
    assert_eq!(parse_category("Communications"), TrayCategory::Communications);
    assert_eq!(parse_category("SystemServices"), TrayCategory::SystemServices);
    assert_eq!(parse_category("Hardware"), TrayCategory::Hardware);
    assert_eq!(parse_category("???"), TrayCategory::ApplicationStatus);
}

#[test]
fn service_name_splitting() {
    assert_eq!(
        split_service_name(":1.42/org/ayatana/Item"),
        (":1.42".to_string(), "/org/ayatana/Item".to_string())
    );
    assert_eq!(
        split_service_name("org.kde.StatusNotifierItem-5"),
        ("org.kde.StatusNotifierItem-5".to_string(), "/StatusNotifierItem".to_string())
    );
}

#[test]
fn discovery_filters_sni_names() {
    let names = vec![
        "org.freedesktop.DBus".to_string(),
        "org.kde.StatusNotifierItem-1".to_string(),
        ":1.7".to_string(),
        "org.kde.StatusNotifierItem-2-2".to_string(),
    ];
    assert_eq!(
        sni_candidates(&names),
        vec![
            "org.kde.StatusNotifierItem-1".to_string(),
            "org.kde.StatusNotifierItem-2-2".to_string(),
        ]
    );
}

#[test]
fn listener_replaced_not_duplicated() {
    let mut reg = ListenerRegistry::new();
    let (aborted, first) = reg.register("org.kde.StatusNotifierItem-3");
    assert_eq!(aborted, None);
    let (aborted, second) = reg.register("org.kde.StatusNotifierItem-3");
    // The old task is handed back for cancellation; one entry remains.
    assert_eq!(aborted, Some(first));
    assert_ne!(first, second);
    assert_eq!(reg.tasks.len(), 1);
    assert_eq!(reg.remove("org.kde.StatusNotifierItem-3"), Some(second));
    assert_eq!(reg.tasks.len(), 0);
    assert_eq!(reg.remove("org.kde.StatusNotifierItem-3"), None);
}

#[test]
fn listener_ids_independent() {
    let mut reg = ListenerRegistry::new();
    let (_, a) = reg.register("item-a");
    let (aborted, _) = reg.register("item-b");
    assert_eq!(aborted, None);
    assert_eq!(reg.tasks.len(), 2);
    assert_eq!(reg.remove("item-a"), Some(a));
    assert_eq!(reg.tasks.len(), 1);
}

#[test]
fn item_updates_follow_signals() {
    let up = item_update("id-1", ItemSignal::Status, Some("Active".to_string()), None);
    match up {
        Some(ItemUpdate::Status { id, status }) => {
            assert_eq!(id, "id-1");
            assert_eq!(status, "Active");
        },
        _ => panic!("expected a status update"),
    }
    assert!(item_update("id-1", ItemSignal::Status, None, None).is_none());
    assert!(item_update("id-1", ItemSignal::Title, None, None).is_none());
    // A failed icon re-read still emits, with an explicit empty icon.
    match item_update("id-1", ItemSignal::Icon, None, None) {
        Some(ItemUpdate::Icon { id, icon }) => {
            assert_eq!(id, "id-1");
            assert!(icon.is_none());
        },
        _ => panic!("expected an icon update"),
    }
}

#[test]
fn item_data_assembly() {
    let icon = IconData { width: 2, height: 2, data: "QUJD".to_string() };
    let d = build_item_data("id-9", None, "Passive".to_string(), true, Some(icon));
    assert_eq!(d.id, "id-9");
    assert_eq!(d.title, "");
    assert_eq!(d.status, "Passive");
    assert!(d.has_menu);
    assert_eq!(d.icon.as_ref().unwrap().width, 2);
}

#[test]
fn pixmap_icon_selects_best_fit() {
    let mk = |w: i32, h: i32| SniPixmap {
        width: w,
        height: h,
        data: vec![0u8; (w * h * 4) as usize],
    };
    let icon = icon_from_pixmaps(&vec![mk(16, 16), mk(48, 48), mk(64, 64)], 32).unwrap();
    assert_eq!((icon.width, icon.height), (48, 48));
    assert!(icon_from_pixmaps(&Vec::new(), 32).is_none());
    // A malformed winner (wrong byte count) yields no icon.
    let broken = SniPixmap { width: 4, height: 4, data: vec![0u8; 7] };
    assert!(icon_from_pixmaps(&vec![broken], 32).is_none());
}

#[test]
fn title_candidates_in_priority_order() {
    assert_eq!(
        first_nonempty_title(vec![None, Some("".to_string()), Some("shell".to_string())]),
        Some("shell".to_string())
    );
    assert_eq!(first_nonempty_title(vec![None, Some("".to_string())]), None);
}

#[test]
fn x11_tray_snapshot_lists_icons() {
    let mut tray = X11TrayManager::new();
    tray.ingest(vec![
        X11TrayWindow { window: 100, icon_bytes: vec![1, 2, 3] },
        X11TrayWindow { window: 101, icon_bytes: Vec::new() },
    ]);
    let mgr = SystemTrayManager::new(TrayBackend::X11(tray));
    let icons = mgr.get_tray_icons().unwrap();
    assert_eq!(icons.len(), 2);
    assert_eq!(icons[0].id, "100");
    assert_eq!(icons[0].wid, 100);
    assert_eq!(icons[0].icon_data.as_deref(), Some("AQID"));
    assert_eq!(icons[1].icon_data, None);
}

#[test]
fn wayland_tray_lists_nothing() {
    let mgr = SystemTrayManager::new(TrayBackend::Wayland(WaylandTrayManager::new()));
    assert_eq!(mgr.get_tray_icons().unwrap().len(), 0);
}

#[test]
fn tray_monitor_events_classified() {
    assert!(tray_event_triggers_notify(TrayMonitorEvent::PropertyChanged { selection_atom: true }));
    assert!(!tray_event_triggers_notify(TrayMonitorEvent::PropertyChanged {
        selection_atom: false
    }));
    assert!(tray_event_triggers_notify(TrayMonitorEvent::WindowDestroyed { known_icon: true }));
    assert!(!tray_event_triggers_notify(TrayMonitorEvent::WindowDestroyed { known_icon: false }));
    assert!(!tray_event_triggers_notify(TrayMonitorEvent::Other));
}

#[test]
fn menu_parser_placeholder_entry() {
    let m = MenuParser::parse_menu_item();
    assert_eq!(m.id, 0);
    assert_eq!(m.label, "Menu Item");
    assert!(m.enabled);
    assert!(m.visible);
    assert_eq!(m.menu_type, "standard");
    assert!(m.checked.is_none());
    assert!(m.icon.is_none());
    assert!(m.children.is_none());
}
