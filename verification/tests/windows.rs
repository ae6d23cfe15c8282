use vpanel_core::error::EngineError;
use vpanel_core::numstr;
use vpanel_core::selector::{
    select_backend, select_tray_backend, BackendChoice, SessionDescriptor, TrayBackendChoice,
};
use vpanel_core::wayland::{
    classify_global, GlobalBind, KdeEvent, WaylandManager, WaylandProtocol, WaylandRequest,
    WlrEvent,
};
use vpanel_core::window::{TogglePlan, WindowBackend, WindowManager, WindowManagerBackend};
use vpanel_core::x11::{
    event_triggers_notify, pick_title, wm_class_segment, EwmhRequest, StateAction, StateProp,
    X11Manager, X11MonitorEvent, X11WindowProps, X11WindowType,
};

fn props(
    id: u32,
    title: &str,
    class: &str,
    types: Vec<X11WindowType>,
    hidden: bool,
    skip_taskbar: bool,
    demands_attention: bool,
) -> X11WindowProps {
    X11WindowProps {
        id,
        title: title.to_string(),
        class: class.to_string(),
        override_redirect: false,
        window_types: types,
        hidden,
        skip_taskbar,
        demands_attention,
    }
}

fn x11_with(windows: Vec<X11WindowProps>, active: Option<u32>) -> X11Manager {
    let mut m = X11Manager::new();
    m.ingest(windows, active);
    m
}

#[test]
fn list_windows_idempotent() {
    let m = x11_with(
        vec![
            props(1, "editor", "code", vec![X11WindowType::Normal], false, false, false),
            props(2, "browser", "firefox", vec![], true, false, true),
        ],
        Some(1),
    );
    let a = m.get_window_list().unwrap();
    let b = m.get_window_list().unwrap();
    assert_eq!(a, b);
    assert_eq!(a.len(), 2);
    assert_eq!(a[0].id, "1");
    assert_eq!(a[0].title, "editor");
    assert!(!a[0].is_minimized);
    assert_eq!(a[0].icon, "code");
    assert_eq!(a[0].demands_attention, Some(false));
    assert_eq!(a[1].id, "2");
    assert!(a[1].is_minimized);
    assert_eq!(a[1].demands_attention, Some(true));
}

#[test]
fn dock_window_never_listed() {
    let m = x11_with(
        vec![
            props(10, "panel", "somepanel", vec![X11WindowType::Dock], false, false, false),
            props(11, "app", "editor", vec![X11WindowType::Normal], false, false, false),
        ],
        None,
    );
    let list = m.get_window_list().unwrap();
    assert_eq!(list.len(), 1);
    assert_eq!(list[0].id, "11");
}

#[test]
fn tauri_class_never_listed() {
    let m = x11_with(
        vec![
            props(20, "shell", "MyTauriApp", vec![], false, false, false),
            props(21, "app", "editor", vec![], false, false, false),
        ],
        None,
    );
    let list = m.get_window_list().unwrap();
    assert_eq!(list.len(), 1);
    assert_eq!(list[0].id, "21");
}

#[test]
fn skip_taskbar_and_override_redirect_filtered() {
    let mut skipper = props(30, "s", "app-a", vec![], false, true, false);
    skipper.override_redirect = false;
    let mut redirecting = props(31, "r", "app-b", vec![], false, false, false);
    redirecting.override_redirect = true;
    let m = x11_with(vec![skipper, redirecting], None);
    assert_eq!(m.get_window_list().unwrap().len(), 0);
}

#[test]
fn toggle_hidden_unhides_and_activates() {
    let m = x11_with(vec![props(42, "t", "app", vec![], true, false, false)], None);
    let plan = m.toggle_window("42").unwrap();
    let reqs = match plan {
        TogglePlan::Ewmh(r) => r,
        _ => panic!("expected an EWMH plan"),
    };
    assert_eq!(
        reqs,
        vec![
            EwmhRequest::ChangeState {
                window: 42,
                action: StateAction::Remove,
                prop: StateProp::Hidden
            },
            EwmhRequest::ChangeState {
                window: 42,
                action: StateAction::Add,
                prop: StateProp::DemandsAttention
            },
            EwmhRequest::Activate { window: 42 },
            EwmhRequest::ChangeState {
                window: 42,
                action: StateAction::Remove,
                prop: StateProp::DemandsAttention
            },
        ]
    );
    let add_hidden = EwmhRequest::ChangeState {
        window: 42,
        action: StateAction::Add,
        prop: StateProp::Hidden,
    };
    assert!(reqs.iter().all(|r| *r != add_hidden));
}

#[test]
fn toggle_focused_minimizes() {
    let m = x11_with(vec![props(7, "t", "app", vec![], false, false, false)], Some(7));
    let plan = m.toggle_window("7").unwrap();
    match plan {
        TogglePlan::Ewmh(reqs) => assert_eq!(
            reqs,
            vec![EwmhRequest::ChangeState {
                window: 7,
                action: StateAction::Add,
                prop: StateProp::Hidden
            }]
        ),
        _ => panic!("expected an EWMH plan"),
    }
}

#[test]
fn toggle_unfocused_clears_attention_then_activates() {
    let m = x11_with(vec![props(8, "t", "app", vec![], false, false, true)], Some(9));
    match m.toggle_window("8").unwrap() {
        TogglePlan::Ewmh(reqs) => assert_eq!(
            reqs,
            vec![
                EwmhRequest::ChangeState {
                    window: 8,
                    action: StateAction::Remove,
                    prop: StateProp::DemandsAttention
                },
                EwmhRequest::Activate { window: 8 },
            ]
        ),
        _ => panic!("expected an EWMH plan"),
    }
}

#[test]
fn toggle_errors() {
    let m = x11_with(vec![props(1, "t", "app", vec![], false, false, false)], None);
    assert_eq!(m.toggle_window("not-a-number").unwrap_err(), EngineError::InvalidWindowId);
    assert_eq!(m.toggle_window("").unwrap_err(), EngineError::InvalidWindowId);
    assert_eq!(m.toggle_window("99").unwrap_err(), EngineError::WindowNotFound);
}

#[test]
fn window_manager_delegates() {
    let m = x11_with(vec![props(5, "t", "app", vec![], false, false, false)], None);
    let wm = WindowManager::new(WindowBackend::X11(m));
    let list = wm.get_window_list().unwrap();
    assert_eq!(list.len(), 1);
    assert_eq!(list[0].id, "5");
    match wm.toggle_window("5").unwrap() {
        TogglePlan::Ewmh(reqs) => assert_eq!(reqs.len(), 1),
        _ => panic!("expected an EWMH plan"),
    }
}

#[test]
fn wlr_done_publishes_snapshot() {
    let mut w = WaylandManager::new(WaylandProtocol::Wlr, true);
    assert!(!w.apply_wlr_event(WlrEvent::Created { id: 1 }));
    assert!(!w.apply_wlr_event(WlrEvent::Title { id: 1, title: "term".to_string() }));
    assert!(!w.apply_wlr_event(WlrEvent::AppId { id: 1, app_id: "kitty".to_string() }));
    // Nothing committed yet: the listing must not observe the torn batch.
    assert_eq!(w.get_window_list().unwrap().len(), 0);
    assert!(w.apply_wlr_event(WlrEvent::Done { id: 1 }));
    let list = w.get_window_list().unwrap();
    assert_eq!(list.len(), 1);
    assert_eq!(list[0].id, "1");
    assert_eq!(list[0].title, "term");
    assert_eq!(list[0].icon, "kitty");
    assert_eq!(list[0].demands_attention, None);
}

#[test]
fn wlr_state_replaces_flags() {
    let mut w = WaylandManager::new(WaylandProtocol::Wlr, true);
    w.apply_wlr_event(WlrEvent::Created { id: 3 });
    w.apply_wlr_event(WlrEvent::AppId { id: 3, app_id: "editor".to_string() });
    w.apply_wlr_event(WlrEvent::State { id: 3, states: vec![1, 2] });
    w.apply_wlr_event(WlrEvent::Done { id: 3 });
    let list = w.get_window_list().unwrap();
    assert!(list[0].is_minimized);
    // A later State event carries the full array; old flags vanish.
    w.apply_wlr_event(WlrEvent::State { id: 3, states: vec![2] });
    w.apply_wlr_event(WlrEvent::Done { id: 3 });
    let list = w.get_window_list().unwrap();
    assert!(!list[0].is_minimized);
}

#[test]
fn wlr_closed_removes() {
    let mut w = WaylandManager::new(WaylandProtocol::Wlr, true);
    w.apply_wlr_event(WlrEvent::Created { id: 4 });
    w.apply_wlr_event(WlrEvent::Done { id: 4 });
    assert_eq!(w.get_window_list().unwrap().len(), 1);
    assert!(!w.apply_wlr_event(WlrEvent::Closed { id: 4 }));
    assert_eq!(w.get_window_list().unwrap().len(), 0);
}

#[test]
fn wlr_deny_list_filters_app_id() {
    let mut w = WaylandManager::new(WaylandProtocol::Wlr, true);
    w.apply_wlr_event(WlrEvent::Created { id: 5 });
    w.apply_wlr_event(WlrEvent::AppId { id: 5, app_id: "Waybar".to_string() });
    w.apply_wlr_event(WlrEvent::Done { id: 5 });
    assert_eq!(w.get_window_list().unwrap().len(), 0);
}

#[test]
fn wayland_toggle_decisions() {
    let mut w = WaylandManager::new(WaylandProtocol::Wlr, true);
    w.apply_wlr_event(WlrEvent::Created { id: 6 });
    w.apply_wlr_event(WlrEvent::State { id: 6, states: vec![1] });
    w.apply_wlr_event(WlrEvent::Done { id: 6 });
    match w.toggle_window("6").unwrap() {
        TogglePlan::Wayland(reqs) => assert_eq!(
            reqs,
            vec![
                WaylandRequest::UnsetMinimized { window: 6 },
                WaylandRequest::Activate { window: 6 },
            ]
        ),
        _ => panic!("expected a Wayland plan"),
    }
    w.apply_wlr_event(WlrEvent::State { id: 6, states: vec![2] });
    w.apply_wlr_event(WlrEvent::Done { id: 6 });
    match w.toggle_window("6").unwrap() {
        TogglePlan::Wayland(reqs) => {
            assert_eq!(reqs, vec![WaylandRequest::SetMinimized { window: 6 }])
        },
        _ => panic!("expected a Wayland plan"),
    }
}

#[test]
fn wayland_toggle_needs_seat() {
    let mut w = WaylandManager::new(WaylandProtocol::Wlr, false);
    w.apply_wlr_event(WlrEvent::Created { id: 9 });
    w.apply_wlr_event(WlrEvent::Done { id: 9 });
    assert_eq!(w.toggle_window("9").unwrap_err(), EngineError::SeatUnavailable);
    assert_eq!(w.toggle_window("77").unwrap_err(), EngineError::WindowNotFound);
    // Listing still works without a seat.
    assert_eq!(w.get_window_list().unwrap().len(), 1);
}

#[test]
fn kde_events_apply_immediately() {
    let mut w = WaylandManager::new(WaylandProtocol::Kde, true);
    assert!(!w.apply_kde_event(KdeEvent::Created { id: 12 }));
    assert!(w.apply_kde_event(KdeEvent::TitleChanged { id: 12, title: "mail".to_string() }));
    assert!(w.apply_kde_event(KdeEvent::AppIdChanged { id: 12, app_id: "kmail".to_string() }));
    assert!(w.apply_kde_event(KdeEvent::StateChanged { id: 12, flags: 0x2 }));
    let list = w.get_window_list().unwrap();
    assert_eq!(list.len(), 1);
    assert_eq!(list[0].title, "mail");
    assert!(list[0].is_minimized);
    // The protocol's state values: 0x1 marks the window active.
    assert!(w.apply_kde_event(KdeEvent::StateChanged { id: 12, flags: 0x1 }));
    let list = w.get_window_list().unwrap();
    assert!(!list[0].is_minimized);
    // Toggling the active window minimizes it.
    match w.toggle_window("12").unwrap() {
        TogglePlan::Wayland(reqs) => {
            assert_eq!(reqs, vec![WaylandRequest::SetMinimized { window: 12 }])
        },
        _ => panic!("expected a Wayland plan"),
    }
    assert!(w.apply_kde_event(KdeEvent::Unmapped { id: 12 }));
    assert_eq!(w.get_window_list().unwrap().len(), 0);
}

#[test]
fn kde_unknown_id_ignored() {
    let mut w = WaylandManager::new(WaylandProtocol::Kde, true);
    assert!(!w.apply_kde_event(KdeEvent::TitleChanged { id: 99, title: "x".to_string() }));
    assert_eq!(w.get_window_list().unwrap().len(), 0);
}

#[test]
fn registry_globals_classified() {
    assert_eq!(classify_global("zwlr_foreign_toplevel_manager_v1", 3), Some(GlobalBind::WlrManager));
    assert_eq!(classify_global("org_kde_plasma_window_management", 1), Some(GlobalBind::KdeManager));
    assert_eq!(classify_global("wl_seat", 7), Some(GlobalBind::Seat));
    assert_eq!(classify_global("wl_output", 4), None);
    assert_eq!(classify_global("wl_seat", 0), None);
}

#[test]
fn backend_selection() {
    let d = |w, x, wlr, kde| SessionDescriptor {
        wayland_display: w,
        x11_display: x,
        wlr_available: wlr,
        kde_available: kde,
    };
    assert_eq!(select_backend(&d(true, true, true, true)).unwrap(), BackendChoice::WaylandWlr);
    assert_eq!(select_backend(&d(true, false, false, true)).unwrap(), BackendChoice::WaylandKde);
    assert_eq!(select_backend(&d(true, true, false, false)).unwrap(), BackendChoice::X11);
    assert_eq!(select_backend(&d(false, true, false, false)).unwrap(), BackendChoice::X11);
    assert_eq!(
        select_backend(&d(false, false, false, false)).unwrap_err(),
        EngineError::NoSupportedSession
    );
    assert_eq!(
        select_tray_backend(&d(true, true, false, false)).unwrap(),
        TrayBackendChoice::Wayland
    );
    assert_eq!(
        select_tray_backend(&d(false, true, false, false)).unwrap(),
        TrayBackendChoice::X11
    );
    assert_eq!(
        select_tray_backend(&d(false, false, false, false)).unwrap_err(),
        EngineError::NoSupportedSession
    );
}

#[test]
fn title_prefers_net_wm_name() {
    assert_eq!(pick_title(Some("ewmh".to_string()), Some("legacy".to_string())), "ewmh");
    assert_eq!(pick_title(Some("".to_string()), Some("legacy".to_string())), "legacy");
    assert_eq!(pick_title(None, Some("legacy".to_string())), "legacy");
    assert_eq!(pick_title(None, None), "");
    assert_eq!(pick_title(Some("".to_string()), Some("".to_string())), "");
}

#[test]
fn wm_class_takes_first_nonempty_segment() {
    // WM_CLASS holds "instance\0class\0"; the instance name wins.
    assert_eq!(wm_class_segment(&b"editor\0Editor\0".to_vec()), b"editor".to_vec());
    // An empty instance falls back to the class segment.
    assert_eq!(wm_class_segment(&b"\0Editor\0".to_vec()), b"Editor".to_vec());
    assert_eq!(wm_class_segment(&b"\0\0".to_vec()), b"".to_vec());
    assert_eq!(wm_class_segment(&Vec::new()), b"".to_vec());
    // No separator at all: the whole value is the segment.
    assert_eq!(wm_class_segment(&b"bare".to_vec()), b"bare".to_vec());
}

#[test]
fn monitor_events_classified() {
    assert!(event_triggers_notify(X11MonitorEvent::PropertyNotify));
    assert!(event_triggers_notify(X11MonitorEvent::CreateNotify));
    assert!(event_triggers_notify(X11MonitorEvent::DestroyNotify));
    assert!(!event_triggers_notify(X11MonitorEvent::Other));
}

#[test]
fn error_messages_nonempty() {
    let errors = [
        EngineError::NoSupportedSession,
        EngineError::InvalidWindowId,
        EngineError::WindowNotFound,
        EngineError::SeatUnavailable,
        EngineError::InvalidPixmapSize { expected: 400, actual: 50 },
        EngineError::DecodeError,
    ];
    for e in errors {
        assert!(!e.message().is_empty());
    }
}

#[test]
fn decimal_ids_round_trip() {
    assert_eq!(numstr::u32_to_dec(0), "0");
    assert_eq!(numstr::u32_to_dec(42), "42");
    assert_eq!(numstr::u32_to_dec(4294967295), "4294967295");
    assert_eq!(numstr::parse_u32_dec("0"), Some(0));
    assert_eq!(numstr::parse_u32_dec("4294967295"), Some(4294967295));
    assert_eq!(numstr::parse_u32_dec("4294967296"), None);
    assert_eq!(numstr::parse_u32_dec(""), None);
    assert_eq!(numstr::parse_u32_dec("12a"), None);
    assert_eq!(numstr::parse_u32_dec("-1"), None);
}
