use term_everything_engine::client::WaylandClient;
use term_everything_engine::handlers::SurfaceOp;
use term_everything_engine::object::{ObjectKind, ProtocolObject};
use term_everything_engine::protocol::{
    Arg, Event, ProtocolError, Request, WL_COMPOSITOR_ID, WL_DISPLAY_ID, WL_SEAT_ID, WL_SHM_ID, XDG_WM_BASE_ID,
};
use term_everything_engine::scheduler::{AppState, CanvasDesktop};
use term_everything_engine::seat::KEYMAP_SIZE;

fn req(object_id: u32, opcode: u16, args: Vec<Arg>) -> Request {
    Request { object_id, opcode, args }
}

const EXPECTED: [(u32, &str, u32); 5] =
    [(1, "wl_display", 1), (2, "wl_compositor", 4), (3, "wl_shm", 1), (4, "xdg_wm_base", 1), (5, "wl_seat", 7)];

#[test]
fn registry_advertises_exactly_the_globals() {
    let mut c = WaylandClient::new(1, 99);
    c.dispatch(req(WL_DISPLAY_ID, 1, vec![Arg::Uint(10)])).unwrap();
    let events = c.take_events();
    assert_eq!(events.len(), 5);
    for (k, e) in events.iter().enumerate() {
        match e {
            Event::Global { registry_id, name, interface, version } => {
                assert_eq!(*registry_id, 10);
                assert_eq!((*name, *interface, *version), EXPECTED[k]);
            }
            _ => panic!("unexpected event"),
        }
    }
    assert_eq!(c.object_kind(10), Some(ObjectKind::Registry));
}

#[test]
fn list_globals_ignores_history() {
    let mut c = WaylandClient::new(1, 99);
    assert_eq!(c.list_globals(), EXPECTED.to_vec());
    c.create_surface(10).unwrap();
    c.create_pool(11, 7, 64, true).unwrap();
    let _ = c.dispatch(req(77, 0, vec![]));
    assert_eq!(c.list_globals(), EXPECTED.to_vec());
}

#[test]
fn fresh_session_holds_globals_only() {
    let c = WaylandClient::new(3, 42);
    assert_eq!(c.get_id(), 3);
    assert_eq!(c.object_kind(WL_DISPLAY_ID), Some(ObjectKind::Display));
    assert_eq!(c.object_kind(WL_COMPOSITOR_ID), Some(ObjectKind::Compositor));
    assert_eq!(c.object_kind(WL_SHM_ID), Some(ObjectKind::Shm));
    assert_eq!(c.object_kind(XDG_WM_BASE_ID), Some(ObjectKind::WmBase));
    assert_eq!(c.object_kind(WL_SEAT_ID), Some(ObjectKind::Seat));
    assert_eq!(c.object_kind(6), None);
    assert_eq!(c.objects.len(), 5);
}

#[test]
fn unknown_target_is_fatal() {
    let mut c = WaylandClient::new(1, 99);
    let e = c.dispatch(req(1234, 0, vec![])).unwrap_err();
    assert_eq!(e, ProtocolError::InvalidObjectReference);
    assert!(e.is_fatal());
}

#[test]
fn unknown_opcode_is_not_fatal() {
    let mut c = WaylandClient::new(1, 99);
    let e = c.dispatch(req(WL_COMPOSITOR_ID, 9, vec![])).unwrap_err();
    assert_eq!(e, ProtocolError::UnknownOpcode);
    assert!(!e.is_fatal());
    assert!(c.dispatch(req(WL_COMPOSITOR_ID, 0, vec![Arg::Uint(10)])).is_ok());
}

#[test]
fn client_ids_must_be_fresh_and_above_globals() {
    let mut c = WaylandClient::new(1, 99);
    assert_eq!(c.create_surface(3), Err(ProtocolError::InvalidObjectReference));
    assert_eq!(c.create_surface(0), Err(ProtocolError::InvalidObjectReference));
    c.create_surface(10).unwrap();
    assert_eq!(c.create_region(10), Err(ProtocolError::InvalidObjectReference));
    assert_eq!(c.object_kind(3), Some(ObjectKind::Shm));
    c.create_region(11).unwrap();
    assert_eq!(c.object_kind(11), Some(ObjectKind::Region));
}

#[test]
fn touch_is_missing_and_session_lives_on() {
    let mut c = WaylandClient::new(1, 99);
    assert_eq!(c.dispatch(req(WL_SEAT_ID, 2, vec![Arg::Uint(12)])), Err(ProtocolError::MissingCapability));
    assert!(!ProtocolError::MissingCapability.is_fatal());
    let events = c.take_events();
    assert!(matches!(
        events[..],
        [Event::Error { object_id: 5, error: ProtocolError::MissingCapability }]
    ));
    assert_eq!(c.object_kind(WL_SEAT_ID), Some(ObjectKind::Seat));
    c.dispatch(req(WL_SEAT_ID, 0, vec![Arg::Uint(12)])).unwrap();
    assert_eq!(c.object_kind(12), Some(ObjectKind::Pointer));
}

#[test]
fn keyboard_gets_keymap_at_creation() {
    let mut c = WaylandClient::new(1, 99);
    c.dispatch(req(WL_SEAT_ID, 1, vec![Arg::Uint(13)])).unwrap();
    let events = c.take_events();
    assert_eq!(events.len(), 1);
    match events[0] {
        Event::Keymap { keyboard_id, format, fd, size } => {
            assert_eq!((keyboard_id, format, fd, size), (13, 1, -1, KEYMAP_SIZE));
        }
        _ => panic!("expected keymap"),
    }
    assert_eq!(c.get_keyboard(13), Err(ProtocolError::InvalidObjectReference));
    assert!(c.take_events().is_empty());
}

#[test]
fn bind_advertises_seat_and_shm() {
    let mut c = WaylandClient::new(1, 99);
    c.bind(WL_SEAT_ID).unwrap();
    c.bind(WL_SHM_ID).unwrap();
    c.bind(WL_COMPOSITOR_ID).unwrap();
    assert_eq!(c.bind(9), Err(ProtocolError::InvalidObjectReference));
    let events = c.take_events();
    assert_eq!(events.len(), 2);
    assert!(matches!(events[0], Event::Capabilities { seat_id: 5, capabilities: 3 }));
    assert!(matches!(events[1], Event::Format { shm_id: 3, format: 1 }));
}

#[test]
fn set_cursor_is_kept_by_pointer() {
    let mut c = WaylandClient::new(8, 99);
    c.get_pointer(12).unwrap();
    c.create_surface(10).unwrap();
    c.dispatch(req(12, 0, vec![Arg::Uint(1), Arg::Uint(10), Arg::Int(0), Arg::Int(0)])).unwrap();
    match c.get_global(12) {
        Some(ProtocolObject::Pointer(p)) => assert_eq!(p.cursor_surface(8), Some(10)),
        _ => panic!("not a pointer"),
    }
    assert_eq!(c.get_surface_role(10), None);
    assert_eq!(c.set_cursor(10, 10), Err(ProtocolError::InvalidObjectReference));
}

#[test]
fn serials_start_at_one_and_increase() {
    let mut c = WaylandClient::new(1, 99);
    assert_eq!(c.next_serial(), 1);
    assert_eq!(c.next_serial(), 2);
    assert_eq!(c.ping(), Ok(3));
    c.create_surface(10).unwrap();
    c.get_xdg_surface(11, 10).unwrap();
    c.get_toplevel(11, 12).unwrap();
    assert_eq!(c.next_serial(), 5);
}

#[test]
fn sync_answers_at_once() {
    let mut c = WaylandClient::new(1, 99);
    c.dispatch(req(WL_DISPLAY_ID, 0, vec![Arg::Uint(50)])).unwrap();
    assert!(matches!(c.take_events()[..], [Event::Done { callback_id: 50 }]));
}

#[test]
fn frame_callback_fires_once_on_next_tick() {
    let mut c = WaylandClient::new(1, 99);
    c.create_surface(10).unwrap();
    c.dispatch(req(10, 1, vec![Arg::Uint(5), Arg::Int(0), Arg::Int(0)])).unwrap();
    c.dispatch(req(10, 2, vec![Arg::Int(0), Arg::Int(0), Arg::Int(100), Arg::Int(100)])).unwrap();
    c.dispatch(req(10, 6, vec![])).unwrap();
    match c.get_global(10) {
        Some(ProtocolObject::Surface(s)) => {
            assert_eq!(s.current.buffer, Some(5));
            assert_eq!(s.current.offset, (0, 0));
            assert_eq!(s.pending.buffer, None);
            assert!(s.pending.damage.is_empty());
        }
        _ => panic!("not a surface"),
    }
    c.dispatch(req(10, 3, vec![Arg::Uint(42)])).unwrap();
    let _ = c.take_events();
    let mut state = AppState::new();
    assert!(state.register(c));
    let first = state.tick();
    assert_eq!(first.fired, vec![(1, 42)]);
    assert_eq!(first.surfaces.len(), 1);
    assert_eq!((first.surfaces[0].surface_id, first.surfaces[0].buffer_id), (10, 5));
    let second = state.tick();
    assert!(second.fired.is_empty());
    assert_eq!(second.surfaces.len(), 1);
    let events = state.clients[0].take_events();
    assert!(matches!(events[..], [Event::Done { callback_id: 42 }]));
}

#[test]
fn callback_registered_after_tick_waits_for_next() {
    let mut state = AppState::new();
    let mut c = WaylandClient::new(2, 99);
    c.create_surface(10).unwrap();
    assert!(state.register(c));
    assert!(state.tick().fired.is_empty());
    state.clients[0].surface_request(10, SurfaceOp::Frame { callback_id: 7 }).unwrap();
    state.clients[0].surface_request(10, SurfaceOp::Frame { callback_id: 8 }).unwrap();
    assert_eq!(state.tick().fired, vec![(2, 7), (2, 8)]);
    assert!(state.tick().fired.is_empty());
}

#[test]
fn registry_refuses_duplicate_and_deregisters() {
    let mut state = AppState::new();
    assert!(state.register(WaylandClient::new(1, 10)));
    assert!(!state.register(WaylandClient::new(1, 11)));
    assert!(state.register(WaylandClient::new(2, 12)));
    state.clients[0].create_pool(20, 7, 64, true).unwrap();
    assert_eq!(state.deregister(1), Some(vec![20]));
    assert_eq!(state.deregister(1), None);
    assert_eq!(state.clients.len(), 1);
    assert_eq!(state.clients[0].get_id(), 2);
}

#[test]
fn pending_state_is_not_presented() {
    let mut state = AppState::new();
    let mut c = WaylandClient::new(1, 99);
    c.create_surface(10).unwrap();
    c.surface_request(10, SurfaceOp::Attach { buffer_id: 5, x: 3, y: 4 }).unwrap();
    assert!(state.register(c));
    assert!(state.tick().surfaces.is_empty());
    state.clients[0].surface_request(10, SurfaceOp::Commit).unwrap();
    let out = state.tick();
    assert_eq!(out.surfaces[0].offset, (3, 4));
    assert_eq!(out.surfaces[0].client_id, 1);
}

#[test]
fn canvas_starts_and_clears_black() {
    let mut canvas = CanvasDesktop::new(4, 3);
    assert_eq!(canvas.to_buffer().len(), 48);
    canvas.buffer[5] = 9;
    canvas.draw_clients();
    assert!(canvas.to_buffer().iter().all(|b| *b == 0));
}
