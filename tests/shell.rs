use term_everything_engine::client::WaylandClient;
use term_everything_engine::object::{ObjectKind, ProtocolObject};
use term_everything_engine::protocol::{int_arg, mapped_arg, str_arg, uint_arg, Arg, Event, ProtocolError, Request, XDG_WM_BASE_ID};
use term_everything_engine::shell::XdgWmBase;
use term_everything_engine::shell_requests::ToplevelChange;
use term_everything_engine::surface::{SurfaceRole, WlSurface};

fn req(object_id: u32, opcode: u16, args: Vec<Arg>) -> Request {
    Request { object_id, opcode, args }
}

fn surface_role(c: &WaylandClient, id: u32) -> Option<SurfaceRole> {
    match c.get_global(id) {
        Some(ProtocolObject::Surface(s)) => s.role,
        _ => panic!("not a surface"),
    }
}

#[test]
fn toplevel_role_then_conflicts() {
    let mut c = WaylandClient::new(1, 99);
    c.create_surface(10).unwrap();
    c.dispatch(req(XDG_WM_BASE_ID, 2, vec![Arg::Uint(11), Arg::Uint(10)])).unwrap();
    assert_eq!(surface_role(&c, 10), None);
    c.dispatch(req(11, 1, vec![Arg::Uint(12)])).unwrap();
    assert_eq!(surface_role(&c, 10), Some(SurfaceRole::XdgToplevel { toplevel_id: 12 }));
    assert_eq!(c.get_surface_role(10), Some("xdg_toplevel".to_string()));
    assert_eq!(c.object_kind(12), Some(ObjectKind::XdgToplevel));
    let events = c.take_events();
    assert!(matches!(
        events[..],
        [
            Event::ToplevelConfigure { toplevel_id: 12, width: 0, height: 0, maximized: false, fullscreen: false },
            Event::XdgConfigure { xdg_surface_id: 11, serial: 1 }
        ]
    ));
    assert_eq!(
        c.dispatch(req(XDG_WM_BASE_ID, 2, vec![Arg::Uint(13), Arg::Uint(10)])),
        Err(ProtocolError::RoleConflict)
    );
    assert_eq!(c.dispatch(req(11, 2, vec![Arg::Uint(14)])), Err(ProtocolError::RoleConflict));
    assert_eq!(c.object_kind(13), None);
    assert_eq!(c.object_kind(14), None);
    assert_eq!(surface_role(&c, 10), Some(SurfaceRole::XdgToplevel { toplevel_id: 12 }));
}

#[test]
fn popup_role_from_fresh_surface() {
    let mut c = WaylandClient::new(1, 99);
    c.create_surface(10).unwrap();
    c.get_xdg_surface(11, 10).unwrap();
    c.get_popup(11, 12).unwrap();
    assert_eq!(c.get_surface_role(10), Some("xdg_popup".to_string()));
    assert!(matches!(c.take_events()[..], [Event::XdgConfigure { xdg_surface_id: 11, serial: 1 }]));
    assert_eq!(c.get_toplevel(11, 13), Err(ProtocolError::RoleConflict));
}

#[test]
fn xdg_surface_needs_a_surface() {
    let mut c = WaylandClient::new(1, 99);
    assert_eq!(c.get_xdg_surface(11, 10), Err(ProtocolError::InvalidObjectReference));
    c.create_region(10).unwrap();
    assert_eq!(c.get_xdg_surface(11, 10), Err(ProtocolError::InvalidObjectReference));
    assert_eq!(c.get_toplevel(10, 12), Err(ProtocolError::InvalidObjectReference));
}

#[test]
fn second_xdg_surface_on_same_surface_conflicts() {
    let mut c = WaylandClient::new(1, 99);
    c.create_surface(10).unwrap();
    c.get_xdg_surface(11, 10).unwrap();
    assert_eq!(c.get_xdg_surface(12, 10), Err(ProtocolError::RoleConflict));
}

#[test]
fn set_role_twice_fails_and_keeps_state() {
    let mut s = WlSurface::new();
    s.handle_attach(5, 1, 2);
    s.handle_commit();
    s.handle_attach(6, 3, 4);
    assert_eq!(s.set_role(SurfaceRole::XdgPopup { popup_id: 9 }), Ok(()));
    assert_eq!(s.set_role(SurfaceRole::XdgToplevel { toplevel_id: 8 }), Err(ProtocolError::RoleConflict));
    assert_eq!(s.role, Some(SurfaceRole::XdgPopup { popup_id: 9 }));
    assert_eq!((s.current.buffer, s.current.offset), (Some(5), (1, 2)));
    assert_eq!((s.pending.buffer, s.pending.offset), (Some(6), (3, 4)));
    assert_eq!(s.get_role_name(), Some("xdg_popup".to_string()));
}

#[test]
fn session_set_surface_role_conflict() {
    let mut c = WaylandClient::new(1, 99);
    c.create_surface(10).unwrap();
    c.set_surface_role(10, SurfaceRole::XdgToplevel { toplevel_id: 20 }).unwrap();
    assert_eq!(c.set_surface_role(10, SurfaceRole::XdgPopup { popup_id: 21 }), Err(ProtocolError::RoleConflict));
    assert_eq!(c.set_surface_role(99, SurfaceRole::XdgPopup { popup_id: 21 }), Err(ProtocolError::InvalidObjectReference));
    assert_eq!(c.get_surface_role(10), Some("xdg_toplevel".to_string()));
}

#[test]
fn commit_moves_pending_to_current() {
    let mut s = WlSurface::new();
    s.handle_attach(3, 0, 0);
    s.handle_damage(0, 0, 10, 10);
    s.handle_attach(4, 7, 8);
    s.handle_damage(1, 1, 2, 2);
    assert_eq!(s.pending.damage, vec![(0, 0, 10, 10), (1, 1, 2, 2)]);
    assert_eq!(s.current.buffer, None);
    s.handle_commit();
    assert_eq!((s.current.buffer, s.current.offset), (Some(4), (7, 8)));
    assert_eq!((s.pending.buffer, s.pending.offset), (None, (0, 0)));
    assert!(s.pending.damage.is_empty());
}

#[test]
fn ack_configure_accepts_only_issued_serials() {
    let mut c = WaylandClient::new(1, 99);
    c.create_surface(10).unwrap();
    c.get_xdg_surface(11, 10).unwrap();
    c.get_toplevel(11, 12).unwrap();
    assert_eq!(c.dispatch(req(11, 4, vec![Arg::Uint(7)])), Err(ProtocolError::InvalidObjectReference));
    c.dispatch(req(11, 4, vec![Arg::Uint(1)])).unwrap();
    match c.get_global(11) {
        Some(ProtocolObject::XdgSurface(x)) => assert_eq!(x.acked_serial, Some(1)),
        _ => panic!("not an xdg_surface"),
    }
}

#[test]
fn toplevel_changes_schedule_configure() {
    let mut c = WaylandClient::new(1, 99);
    c.create_surface(10).unwrap();
    c.get_xdg_surface(11, 10).unwrap();
    c.get_toplevel(11, 12).unwrap();
    let _ = c.take_events();
    c.dispatch(req(12, 2, vec![Arg::Str("shell".to_string())])).unwrap();
    c.dispatch(req(12, 9, vec![])).unwrap();
    c.toplevel_request(12, ToplevelChange::SetMinSize(100, 50)).unwrap();
    match c.get_global(12) {
        Some(ProtocolObject::XdgToplevel(t)) => {
            assert_eq!(t.title, Some("shell".to_string()));
            assert!(t.maximized);
            assert_eq!(t.min_size, (100, 50));
        }
        _ => panic!("not a toplevel"),
    }
    let events = c.take_events();
    assert_eq!(events.len(), 6);
    assert!(matches!(events[2], Event::ToplevelConfigure { toplevel_id: 12, maximized: true, .. }));
    assert!(matches!(events[3], Event::XdgConfigure { xdg_surface_id: 11, serial: 3 }));
    assert!(matches!(events[5], Event::XdgConfigure { xdg_surface_id: 11, serial: 4 }));
    match c.get_global(11) {
        Some(ProtocolObject::XdgSurface(x)) => assert_eq!(x.issued_serials, vec![1, 2, 3, 4]),
        _ => panic!("not an xdg_surface"),
    }
    assert_eq!(c.toplevel_request(11, ToplevelChange::SetMaximized), Err(ProtocolError::InvalidObjectReference));
}

#[test]
fn pong_for_unknown_serial_is_ignored() {
    let mut w = XdgWmBase::new();
    w.record_ping(4);
    assert!(!w.handle_pong(5));
    assert_eq!(w.pending_pings, vec![4]);
    assert!(w.handle_pong(4));
    assert!(w.pending_pings.is_empty());
    let mut c = WaylandClient::new(1, 99);
    let serial = c.ping().unwrap();
    c.dispatch(req(XDG_WM_BASE_ID, 3, vec![Arg::Uint(serial + 10)])).unwrap();
    c.dispatch(req(XDG_WM_BASE_ID, 3, vec![Arg::Uint(serial)])).unwrap();
    match c.get_global(XDG_WM_BASE_ID) {
        Some(ProtocolObject::WmBase(w)) => assert!(w.pending_pings.is_empty()),
        _ => panic!("not the wm_base"),
    }
}

#[test]
fn string_args_decode_with_defaults() {
    let args = vec![Arg::Uint(3), Arg::Int(-2), Arg::Str("x".to_string()), Arg::Fd(9)];
    assert_eq!(uint_arg(&args, 0), 3);
    assert_eq!(uint_arg(&args, 1), (-2i32) as u32);
    assert_eq!(int_arg(&args, 1), -2);
    assert_eq!(int_arg(&args, 3), 9);
    assert_eq!(str_arg(&args, 2), "x".to_string());
    assert_eq!(str_arg(&args, 0), "".to_string());
    assert_eq!(uint_arg(&args, 9), 0);
    let pool_args = vec![Arg::MappedFd { fd: 4, mapped: true }, Arg::Fd(5)];
    assert_eq!(int_arg(&pool_args, 0), 4);
    assert!(mapped_arg(&pool_args, 0));
    assert!(!mapped_arg(&pool_args, 1));
    assert!(!mapped_arg(&pool_args, 7));
}

#[test]
fn exhausted_serials_refuse_and_change_nothing() {
    let mut c = WaylandClient::new(1, 99);
    c.create_surface(10).unwrap();
    c.get_xdg_surface(11, 10).unwrap();
    c.last_serial = u32::MAX;
    let e = c.get_toplevel(11, 12).unwrap_err();
    assert_eq!(e, ProtocolError::SerialsExhausted);
    assert!(e.is_fatal());
    assert_eq!(c.get_surface_role(10), None);
    assert_eq!(c.object_kind(12), None);
    assert_eq!(c.ping(), Err(ProtocolError::SerialsExhausted));
    assert!(c.take_events().is_empty());
}
