use term_everything_engine::client::WaylandClient;
use term_everything_engine::object::ProtocolObject;
use term_everything_engine::protocol::{Arg, ProtocolError, Request, WL_SHM_ID};
use term_everything_engine::scheduler::AppState;
use term_everything_engine::shm::{MapState, WlShmPool};

fn req(object_id: u32, opcode: u16, args: Vec<Arg>) -> Request {
    Request { object_id, opcode, args }
}

fn pool_state(c: &WaylandClient, id: u32) -> (MapState, Vec<u32>) {
    match c.get_global(id) {
        Some(ProtocolObject::ShmPool(p)) => (p.map_state, p.buffers.clone()),
        _ => panic!("not a pool"),
    }
}

fn session_with_pool_and_buffer() -> WaylandClient {
    let mut c = WaylandClient::new(1, 99);
    c.dispatch(req(WL_SHM_ID, 0, vec![Arg::Uint(20), Arg::MappedFd { fd: 7, mapped: true }, Arg::Int(4096)])).unwrap();
    c.dispatch(req(20, 0, vec![Arg::Uint(21), Arg::Int(0), Arg::Int(10), Arg::Int(10), Arg::Int(40), Arg::Uint(1)]))
        .unwrap();
    c
}

#[test]
fn buffer_then_pool_destroy_unmaps_immediately() {
    let mut c = session_with_pool_and_buffer();
    assert_eq!(pool_state(&c, 20), (MapState::Mmapped, vec![21]));
    match c.get_global(21) {
        Some(ProtocolObject::Buffer(b)) => {
            assert_eq!(b.parent_pool_id, 20);
            assert_eq!((b.offset, b.width, b.height, b.stride, b.format), (0, 10, 10, 40, 1));
        }
        _ => panic!("buffer missing"),
    }
    c.dispatch(req(21, 0, vec![])).unwrap();
    assert_eq!(pool_state(&c, 20), (MapState::Mmapped, vec![]));
    assert!(c.get_global(21).is_none());
    c.dispatch(req(20, 1, vec![])).unwrap();
    assert_eq!(pool_state(&c, 20).0, MapState::Destroyed);
}

#[test]
fn pool_destroy_waits_for_buffer() {
    let mut c = session_with_pool_and_buffer();
    c.dispatch(req(20, 1, vec![])).unwrap();
    assert_eq!(pool_state(&c, 20).0, MapState::DestroyWhenBuffersEmpty);
    c.dispatch(req(21, 0, vec![])).unwrap();
    assert_eq!(pool_state(&c, 20), (MapState::Destroyed, vec![]));
}

#[test]
fn many_buffers_any_order_unmap_once() {
    let mut c = WaylandClient::new(1, 99);
    c.create_pool(20, 7, 4096, true).unwrap();
    for id in 30..35 {
        c.create_buffer(20, id, 0, 1, 1, 4, 1).unwrap();
    }
    c.destroy_pool(20).unwrap();
    assert_eq!(pool_state(&c, 20).0, MapState::DestroyWhenBuffersEmpty);
    for id in [32, 30, 34, 31] {
        c.destroy_buffer(id).unwrap();
        assert_eq!(pool_state(&c, 20).0, MapState::DestroyWhenBuffersEmpty);
    }
    c.destroy_buffer(33).unwrap();
    assert_eq!(pool_state(&c, 20), (MapState::Destroyed, vec![]));
}

#[test]
fn pool_method_reports_the_single_unmap() {
    let mut p = WlShmPool::new(20, 7, 4096, true);
    p.handle_create_buffer(1).unwrap();
    p.handle_create_buffer(2).unwrap();
    p.handle_destroy();
    assert_eq!(p.map_state, MapState::DestroyWhenBuffersEmpty);
    assert!(!p.buffer_destroyed(2));
    assert!(p.buffer_destroyed(1));
    assert!(!p.buffer_destroyed(1));
    assert_eq!(p.map_state, MapState::Destroyed);
}

#[test]
fn empty_pool_destroy_never_defers() {
    let mut p = WlShmPool::new(20, 7, 4096, true);
    p.handle_destroy();
    assert_eq!(p.map_state, MapState::Destroyed);
}

#[test]
fn failed_map_pool_refuses_buffers() {
    let mut c = WaylandClient::new(1, 99);
    c.create_pool(20, 7, 4096, false).unwrap();
    assert_eq!(pool_state(&c, 20).0, MapState::Destroyed);
    assert_eq!(c.create_buffer(20, 21, 0, 1, 1, 4, 1), Err(ProtocolError::MapFailure));
    assert!(c.get_global(21).is_none());
    assert_eq!(c.resize_pool(20, 8192), Ok(()));
    match c.get_global(20) {
        Some(ProtocolObject::ShmPool(p)) => assert_eq!((p.fd, p.size), (7, 4096)),
        _ => panic!("not a pool"),
    }
}

#[test]
fn unmapped_descriptor_request_gives_destroyed_pool() {
    let mut c = WaylandClient::new(1, 99);
    c.dispatch(req(WL_SHM_ID, 0, vec![Arg::Uint(20), Arg::MappedFd { fd: 7, mapped: false }, Arg::Int(4096)])).unwrap();
    assert_eq!(pool_state(&c, 20).0, MapState::Destroyed);
    c.dispatch(req(WL_SHM_ID, 0, vec![Arg::Uint(22), Arg::Fd(7), Arg::Int(4096)])).unwrap();
    assert_eq!(pool_state(&c, 22).0, MapState::Destroyed);
    assert_eq!(
        c.dispatch(req(20, 0, vec![Arg::Uint(21), Arg::Int(0), Arg::Int(1), Arg::Int(1), Arg::Int(4), Arg::Uint(1)])),
        Err(ProtocolError::MapFailure)
    );
}

#[test]
fn resize_only_while_mapped() {
    let mut c = WaylandClient::new(1, 99);
    c.create_pool(20, 7, 4096, true).unwrap();
    c.dispatch(req(20, 2, vec![Arg::Int(8192)])).unwrap();
    match c.get_global(20) {
        Some(ProtocolObject::ShmPool(p)) => assert_eq!(p.size, 8192),
        _ => panic!("not a pool"),
    }
    c.destroy_pool(20).unwrap();
    c.resize_pool(20, 100).unwrap();
    match c.get_global(20) {
        Some(ProtocolObject::ShmPool(p)) => assert_eq!(p.size, 8192),
        _ => panic!("not a pool"),
    }
}

#[test]
fn buffer_on_missing_pool_is_invalid() {
    let mut c = WaylandClient::new(1, 99);
    assert_eq!(c.create_buffer(40, 41, 0, 1, 1, 4, 1), Err(ProtocolError::InvalidObjectReference));
    assert_eq!(c.destroy_buffer(41), Err(ProtocolError::InvalidObjectReference));
}

#[test]
fn disconnect_force_unmaps_live_pools() {
    let mut c = session_with_pool_and_buffer();
    c.create_pool(22, 7, 64, true).unwrap();
    c.create_pool(23, 7, 64, true).unwrap();
    c.destroy_pool(23).unwrap();
    c.destroy_pool(20).unwrap();
    assert_eq!(c.disconnect(), vec![20, 22]);
}

#[test]
fn deregister_returns_force_unmapped_pools() {
    let mut state = AppState::new();
    let mut c = session_with_pool_and_buffer();
    c.create_pool(22, 7, 64, true).unwrap();
    c.create_pool(23, 7, 64, false).unwrap();
    c.destroy_pool(20).unwrap();
    assert!(state.register(c));
    assert!(state.register(WaylandClient::new(2, 98)));
    assert_eq!(state.deregister(1), Some(vec![20, 22]));
    assert_eq!(state.deregister(2), Some(vec![]));
    assert!(state.clients.is_empty());
}
