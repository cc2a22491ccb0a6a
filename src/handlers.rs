use vstd::prelude::*;
use crate::client::{is_kind, WaylandClient};
use crate::display::{WlRegion, WlRegistry};
use crate::object::{kind_of, lemma_index_of, lemma_remove_wf, lemma_update_wf, object_wf, ObjectKind, ProtocolObject};
use crate::protocol::{global_table, Event, ProtocolError, LAST_GLOBAL_ID, WL_SEAT_ID, WL_SHM_ID};
use crate::seat::{WlKeyboard, WlPointer, KEYMAP_FORMAT_XKB_V1, KEYMAP_SIZE};
use crate::shell::XdgPositioner;
use crate::shm::{
    buffer_destroyed_state, create_buffer_spec, destroy_state, resize_spec, MapState, PoolView,
    WlBuffer, WlShmPool, FORMAT_ARGB8888,
};
use crate::surface::{attach_spec, commit_spec, damage_spec, frame_spec, new_surface_spec, SurfaceView, WlSurface};

verus! {

/// A request on a surface's double-buffered state.
pub enum SurfaceOp {
    Attach { buffer_id: u32, x: i32, y: i32 },
    Damage { x: i32, y: i32, width: i32, height: i32 },
    Frame { callback_id: u32 },
    Commit,
}

pub open spec fn surface_op_spec(s: SurfaceView, op: SurfaceOp) -> SurfaceView {
    match op {
        SurfaceOp::Attach { buffer_id, x, y } => attach_spec(s, buffer_id, x, y),
        SurfaceOp::Damage { x, y, width, height } => damage_spec(s, (x, y, width, height)),
        SurfaceOp::Frame { callback_id } => frame_spec(s, callback_id),
        SurfaceOp::Commit => commit_spec(s),
    }
}

/// An id the client may use for a new object.
pub open spec fn fresh_id(t: Map<u32, ProtocolObject>, id: u32) -> bool {
    id > LAST_GLOBAL_ID && !t.contains_key(id)
}

/// The events that advertise the globals on a new registry.
pub open spec fn advertises_globals(events: Seq<Event>, registry_id: u32) -> bool {
    &&& events.len() == 5
    &&& forall|k: int| 0 <= k < 5 ==> match #[trigger] events[k] {
        Event::Global { registry_id: rid, name, interface, version } => rid == registry_id && (name, interface@,
            version) == global_table()[k],
        _ => false,
    }
}

impl WaylandClient {
    /// Adds a fresh object, or reports the id as invalid and changes nothing.
    pub open spec fn created(&self, old_self: &WaylandClient, new_id: u32, object: ProtocolObject, r: Result<(), ProtocolError>) -> bool {
        &&& self.same_meta(old_self)
        &&& fresh_id(old_self.table(), new_id) ==> r is Ok && self.table() == old_self.table().insert(new_id, object)
        &&& !fresh_id(old_self.table(), new_id) ==> r == Err::<(), ProtocolError>(ProtocolError::InvalidObjectReference)
            && self.table() == old_self.table()
    }

    /// The outcome of creating surface `new_id`.
    pub open spec fn create_surface_outcome(
        &self,
        old_self: &WaylandClient,
        new_id: u32,
        r: Result<(), ProtocolError>,
    ) -> bool {
        &&& (r is Ok ==> match self.table()[new_id] {
            ProtocolObject::Surface(s) => s@ == new_surface_spec(),
            _ => false,
        })
        &&& self.created(old_self, new_id, self.table()[new_id], r)
        &&& r is Ok ==> kind_of(self.table()[new_id]) == ObjectKind::Surface
    }

    pub fn create_surface(&mut self, new_id: u32) -> (r: Result<(), ProtocolError>)
        requires
            old(self).wf(),
        ensures
            final(self).wf(),
            final(self).create_surface_outcome(old(self), new_id, r),
    {
        self.add_object(new_id, ProtocolObject::Surface(WlSurface::new()))
    }

    /// The outcome of creating region `new_id`.
    pub open spec fn create_region_outcome(
        &self,
        old_self: &WaylandClient,
        new_id: u32,
        r: Result<(), ProtocolError>,
    ) -> bool {
        &&& self.created(old_self, new_id, ProtocolObject::Region(WlRegion), r)
    }

    pub fn create_region(&mut self, new_id: u32) -> (r: Result<(), ProtocolError>)
        requires
            old(self).wf(),
        ensures
            final(self).wf(),
            final(self).create_region_outcome(old(self), new_id, r),
    {
        self.add_object(new_id, ProtocolObject::Region(WlRegion))
    }

    /// The outcome of creating positioner `new_id`.
    pub open spec fn create_positioner_outcome(
        &self,
        old_self: &WaylandClient,
        new_id: u32,
        r: Result<(), ProtocolError>,
    ) -> bool {
        &&& self.created(old_self, new_id, ProtocolObject::Positioner(XdgPositioner), r)
    }

    pub fn create_positioner(&mut self, new_id: u32) -> (r: Result<(), ProtocolError>)
        requires
            old(self).wf(),
        ensures
            final(self).wf(),
            final(self).create_positioner_outcome(old(self), new_id, r),
    {
        self.add_object(new_id, ProtocolObject::Positioner(XdgPositioner))
    }

    /// The outcome of creating pointer `new_id`.
    pub open spec fn get_pointer_outcome(
        &self,
        old_self: &WaylandClient,
        new_id: u32,
        r: Result<(), ProtocolError>,
    ) -> bool {
        &&& self.created(old_self, new_id, self.table()[new_id], r)
        &&& (r is Ok ==> match self.table()[new_id] {
            ProtocolObject::Pointer(p) => p.cursors() == Map::<u32, u32>::empty(),
            _ => false,
        })
    }

    pub fn get_pointer(&mut self, new_id: u32) -> (r: Result<(), ProtocolError>)
        requires
            old(self).wf(),
        ensures
            final(self).wf(),
            final(self).get_pointer_outcome(old(self), new_id, r),
    {
        self.add_object(new_id, ProtocolObject::Pointer(WlPointer::new()))
    }

    /// The outcome of creating keyboard `new_id`.
    pub open spec fn get_keyboard_outcome(
        &self,
        old_self: &WaylandClient,
        new_id: u32,
        r: Result<(), ProtocolError>,
    ) -> bool {
        &&& self.id == old_self.id
        &&& self.client_socket_fd == old_self.client_socket_fd
        &&& self.last_serial == old_self.last_serial
        &&& (fresh_id(old_self.table(), new_id) ==> {
            &&& r is Ok
            &&& self.table() == old_self.table().insert(new_id, self.table()[new_id])
            &&& kind_of(self.table()[new_id]) == ObjectKind::Keyboard
            &&& self.events@ == old_self.events@.push(
                Event::Keymap { keyboard_id: new_id, format: KEYMAP_FORMAT_XKB_V1, fd: -1i32, size: KEYMAP_SIZE },
            )
        })
        &&& (!fresh_id(old_self.table(), new_id) ==> r == Err::<(), ProtocolError>(
            ProtocolError::InvalidObjectReference,
        ) && self.table() == old_self.table() && self.events@ == old_self.events@)
    }

    /// Creates a keyboard and queues its keymap before anything else can reach it.
    pub fn get_keyboard(&mut self, new_id: u32) -> (r: Result<(), ProtocolError>)
        requires
            old(self).wf(),
        ensures
            final(self).wf(),
            final(self).get_keyboard_outcome(old(self), new_id, r),
    {
        if new_id <= LAST_GLOBAL_ID {
            return Err(ProtocolError::InvalidObjectReference);
        }
        if self.find(new_id).is_some() {
            return Err(ProtocolError::InvalidObjectReference);
        }
        let keyboard = WlKeyboard::new();
        self.events.push(keyboard.on_get_keyboard(new_id));
        self.add_object(new_id, ProtocolObject::Keyboard(keyboard))
    }

    /// The outcome of asking seat `seat_id` for a touch device.
    pub open spec fn get_touch_outcome(
        &self,
        old_self: &WaylandClient,
        seat_id: u32,
        r: Result<(), ProtocolError>,
    ) -> bool {
        &&& r == Err::<(), ProtocolError>(ProtocolError::MissingCapability)
        &&& self.objects == old_self.objects
        &&& self.last_serial == old_self.last_serial
        &&& self.id == old_self.id
        &&& self.client_socket_fd == old_self.client_socket_fd
        &&& (self.events@ == old_self.events@.push(
            Event::Error { object_id: seat_id, error: ProtocolError::MissingCapability },
        ))
    }

    /// Touch is not supported: answered with an error event, nothing else changes.
    pub fn get_touch(&mut self, seat_id: u32) -> (r: Result<(), ProtocolError>)
        ensures
            final(self).get_touch_outcome(old(self), seat_id, r),
    {
        self.events.push(Event::Error { object_id: seat_id, error: ProtocolError::MissingCapability });
        Err(ProtocolError::MissingCapability)
    }

    /// The outcome of a sync answered on `callback_id`.
    pub open spec fn sync_outcome(&self, old_self: &WaylandClient, callback_id: u32) -> bool {
        &&& self.objects == old_self.objects
        &&& self.last_serial == old_self.last_serial
        &&& self.id == old_self.id
        &&& self.client_socket_fd == old_self.client_socket_fd
        &&& self.events@ == old_self.events@.push(Event::Done { callback_id })
    }

    /// Answers a sync at once: everything before it has been processed.
    pub fn sync(&mut self, callback_id: u32)
        ensures
            final(self).sync_outcome(old(self), callback_id),
    {
        self.events.push(Event::Done { callback_id });
    }

    /// The outcome of creating registry `registry_id`.
    pub open spec fn get_registry_outcome(
        &self,
        old_self: &WaylandClient,
        registry_id: u32,
        r: Result<(), ProtocolError>,
    ) -> bool {
        &&& self.id == old_self.id
        &&& self.client_socket_fd == old_self.client_socket_fd
        &&& self.last_serial == old_self.last_serial
        &&& (fresh_id(old_self.table(), registry_id) ==> {
            &&& r is Ok
            &&& self.table() == old_self.table().insert(registry_id, ProtocolObject::Registry(WlRegistry))
            &&& self.events@.len() == old_self.events@.len() + 5
            &&& self.events@.subrange(0, old_self.events@.len() as int) == old_self.events@
            &&& advertises_globals(self.events@.subrange(old_self.events@.len() as int, self.events@.len() as int), registry_id)
        })
        &&& (!fresh_id(old_self.table(), registry_id) ==> r == Err::<(), ProtocolError>(
            ProtocolError::InvalidObjectReference,
        ) && self.table() == old_self.table() && self.events@ == old_self.events@)
    }

    /// Creates a registry and advertises the five globals on it.
    pub fn get_registry(&mut self, registry_id: u32) -> (r: Result<(), ProtocolError>)
        requires
            old(self).wf(),
        ensures
            final(self).wf(),
            final(self).get_registry_outcome(old(self), registry_id, r),
    {
        let added = self.add_object(registry_id, ProtocolObject::Registry(WlRegistry));
        if added.is_err() {
            return added;
        }
        let globals = self.list_globals();
        assert(globals@.len() == crate::protocol::globals_view(globals@).len());
        let ghost start = self.events@;
        let ghost tbl = self.table();
        let mut k: usize = 0;
        while k < globals.len()
            invariant
                0 <= k <= 5,
                globals@.len() == 5,
                crate::protocol::globals_view(globals@) == global_table(),
                self.wf(),
                self.table() == tbl,
                self.id == old(self).id,
                self.client_socket_fd == old(self).client_socket_fd,
                self.last_serial == old(self).last_serial,
                self.events@.len() == start.len() + k,
                self.events@.subrange(0, start.len() as int) == start,
                forall|j: int| 0 <= j < k ==> match #[trigger] self.events@[start.len() + j] {
                    Event::Global { registry_id: rid, name, interface, version } => rid == registry_id && (name,
                        interface@, version) == global_table()[j],
                    _ => false,
                },
            decreases 5 - k,
        {
            let (name, interface, version) = globals[k];
            proof {
                assert(crate::protocol::globals_view(globals@)[k as int] == (name, interface@, version));
            }
            let ghost before = self.events@;
            self.events.push(Event::Global { registry_id, name, interface, version });
            proof {
                assert(self.events@.subrange(0, start.len() as int) =~= before.subrange(0, start.len() as int));
                assert forall|j: int| 0 <= j < k + 1 implies match #[trigger] self.events@[start.len() + j] {
                    Event::Global { registry_id: rid, name, interface, version } => rid == registry_id && (name,
                        interface@, version) == global_table()[j],
                    _ => false,
                } by {
                    if j < k {
                        assert(self.events@[start.len() + j] == before[start.len() + j]);
                    }
                }
            }
            k = k + 1;
        }
        proof {
            let sub = self.events@.subrange(start.len() as int, self.events@.len() as int);
            assert forall|j: int| 0 <= j < 5 implies match #[trigger] sub[j] {
                Event::Global { registry_id: rid, name, interface, version } => rid == registry_id && (name, interface@,
                    version) == global_table()[j],
                _ => false,
            } by {
                assert(sub[j] == self.events@[start.len() + j]);
            }
        }
        Ok(())
    }

    /// The outcome of binding global `name`.
    pub open spec fn bind_outcome(
        &self,
        old_self: &WaylandClient,
        name: u32,
        r: Result<(), ProtocolError>,
    ) -> bool {
        &&& self.objects == old_self.objects
        &&& self.last_serial == old_self.last_serial
        &&& self.id == old_self.id
        &&& self.client_socket_fd == old_self.client_socket_fd
        &&& ((name < 1 || name > LAST_GLOBAL_ID) ==> r == Err::<(), ProtocolError>(ProtocolError::InvalidObjectReference)
            && self.events@ == old_self.events@)
        &&& (name == WL_SEAT_ID ==> r is Ok && self.events@ == old_self.events@.push(
            Event::Capabilities { seat_id: WL_SEAT_ID, capabilities: 3 },
        ))
        &&& (name == WL_SHM_ID ==> r is Ok && self.events@ == old_self.events@.push(
            Event::Format { shm_id: WL_SHM_ID, format: FORMAT_ARGB8888 },
        ))
        &&& ((1 <= name <= LAST_GLOBAL_ID && name != WL_SEAT_ID && name != WL_SHM_ID) ==> r is Ok && self.events@
            == old_self.events@)
    }

    /// Binding the seat or the shm global queues the event it advertises itself with.
    pub fn bind(&mut self, name: u32) -> (r: Result<(), ProtocolError>)
        ensures
            final(self).bind_outcome(old(self), name, r),
    {
        if name < 1 || name > LAST_GLOBAL_ID {
            return Err(ProtocolError::InvalidObjectReference);
        }
        if name == WL_SEAT_ID {
            self.events.push(crate::seat::WlSeat.on_bind(WL_SEAT_ID));
        } else if name == WL_SHM_ID {
            self.events.push(crate::shm::WlShm.on_bind(WL_SHM_ID));
        }
        Ok(())
    }

    /// The outcome of creating pool `new_id` over `fd`.
    pub open spec fn create_pool_outcome(
        &self,
        old_self: &WaylandClient,
        new_id: u32,
        fd: i32,
        size: i32,
        mapped: bool,
        r: Result<(), ProtocolError>,
    ) -> bool {
        &&& self.created(old_self, new_id, self.table()[new_id], r)
        &&& (r is Ok ==> match self.table()[new_id] {
            ProtocolObject::ShmPool(p) => p@ == (PoolView {
                pool_id: new_id,
                fd,
                size,
                map_state: if mapped { MapState::Mmapped } else { MapState::Destroyed },
                buffers: Set::empty(),
            }),
            _ => false,
        })
    }

    /// Creates a pool; one whose memory cannot be mapped starts out destroyed.
    pub fn create_pool(&mut self, new_id: u32, fd: i32, size: i32, mapped: bool) -> (r: Result<(), ProtocolError>)
        requires
            old(self).wf(),
        ensures
            final(self).wf(),
            final(self).create_pool_outcome(old(self), new_id, fd, size, mapped, r),
    {
        let pool = WlShmPool::new(new_id, fd, size, mapped);
        self.add_object(new_id, ProtocolObject::ShmPool(pool))
    }
}

impl WaylandClient {
    /// The outcome of carving buffer `new_id` out of pool `pool_id`.
    pub open spec fn create_buffer_outcome(
        &self,
        old_self: &WaylandClient,
        pool_id: u32,
        new_id: u32,
        offset: i32,
        width: i32,
        height: i32,
        stride: i32,
        format: u32,
        r: Result<(), ProtocolError>,
    ) -> bool {
        &&& self.same_meta(old_self)
        &&& (!is_kind(old_self.table(), pool_id, ObjectKind::ShmPool) ==> r == Err::<(), ProtocolError>(
            ProtocolError::InvalidObjectReference,
        ) && self.table() == old_self.table())
        &&& (is_kind(old_self.table(), pool_id, ObjectKind::ShmPool) ==> match old_self.table()[pool_id] {
            ProtocolObject::ShmPool(p) => {
                &&& p@.map_state == MapState::Destroyed ==> r == Err::<(), ProtocolError>(ProtocolError::MapFailure)
                    && self.table() == old_self.table()
                &&& p@.map_state != MapState::Destroyed && !fresh_id(old_self.table(), new_id) ==> r == Err::<
                    (),
                    ProtocolError,
                >(ProtocolError::InvalidObjectReference) && self.table() == old_self.table()
                &&& p@.map_state != MapState::Destroyed && fresh_id(old_self.table(), new_id) ==> {
                    &&& r is Ok
                    &&& self.table() == old_self.table().insert(pool_id, self.table()[pool_id]).insert(
                        new_id,
                        ProtocolObject::Buffer(WlBuffer { parent_pool_id: pool_id, offset, width, height, stride, format }),
                    )
                    &&& match self.table()[pool_id] {
                        ProtocolObject::ShmPool(q) => q@ == create_buffer_spec(p@, new_id).0,
                        _ => false,
                    }
                }
            },
            _ => false,
        })
    }

    /// Carves a buffer out of a pool; a pool that is not mapped refuses.
    pub fn create_buffer(
        &mut self,
        pool_id: u32,
        new_id: u32,
        offset: i32,
        width: i32,
        height: i32,
        stride: i32,
        format: u32,
    ) -> (r: Result<(), ProtocolError>)
        requires
            old(self).wf(),
        ensures
            final(self).wf(),
            final(self).create_buffer_outcome(old(self), pool_id, new_id, offset, width, height, stride, format, r),
    {
        let i = match self.find(pool_id) {
            None => return Err(ProtocolError::InvalidObjectReference),
            Some(i) => i,
        };
        let destroyed = match &self.objects[i].object {
            ProtocolObject::ShmPool(pool) => pool.map_state == MapState::Destroyed,
            _ => return Err(ProtocolError::InvalidObjectReference),
        };
        if destroyed {
            return Err(ProtocolError::MapFailure);
        }
        if new_id <= LAST_GLOBAL_ID || self.find(new_id).is_some() {
            return Err(ProtocolError::InvalidObjectReference);
        }
        let ghost s = self.objects@;
        proof {
            assert(object_wf(s[i as int].object));
        }
        match &mut self.objects[i].object {
            ProtocolObject::ShmPool(pool) => {
                let _ = pool.handle_create_buffer(new_id);
            },
            _ => {},
        }
        proof {
            lemma_update_wf(s, i as int, self.objects@[i as int].object);
        }
        let buffer = WlBuffer::new(pool_id, offset, width, height, stride, format);
        self.add_object(new_id, ProtocolObject::Buffer(buffer))
    }

    /// The outcome of destroying pool `pool_id`.
    pub open spec fn destroy_pool_outcome(
        &self,
        old_self: &WaylandClient,
        pool_id: u32,
        r: Result<(), ProtocolError>,
    ) -> bool {
        &&& self.same_meta(old_self)
        &&& (!is_kind(old_self.table(), pool_id, ObjectKind::ShmPool) ==> r == Err::<(), ProtocolError>(
            ProtocolError::InvalidObjectReference,
        ) && self.table() == old_self.table())
        &&& (is_kind(old_self.table(), pool_id, ObjectKind::ShmPool) ==> {
            &&& r is Ok
            &&& self.table() == old_self.table().insert(pool_id, self.table()[pool_id])
            &&& match (old_self.table()[pool_id], self.table()[pool_id]) {
                (ProtocolObject::ShmPool(a), ProtocolObject::ShmPool(b)) => b@ == (PoolView {
                    map_state: destroy_state(a@.map_state, a@.buffers),
                    ..a@
                }),
                _ => false,
            }
        })
    }

    /// Destroys a pool: unmapped now without buffers, deferred otherwise.
    pub fn destroy_pool(&mut self, pool_id: u32) -> (r: Result<(), ProtocolError>)
        requires
            old(self).wf(),
        ensures
            final(self).wf(),
            final(self).destroy_pool_outcome(old(self), pool_id, r),
    {
        let i = match self.find(pool_id) {
            None => return Err(ProtocolError::InvalidObjectReference),
            Some(i) => i,
        };
        match &self.objects[i].object {
            ProtocolObject::ShmPool(_) => {},
            _ => return Err(ProtocolError::InvalidObjectReference),
        }
        let ghost s = self.objects@;
        proof {
            assert(object_wf(s[i as int].object));
        }
        let r = match &mut self.objects[i].object {
            ProtocolObject::ShmPool(pool) => {
                pool.handle_destroy();
                Ok(())
            },
            _ => Err(ProtocolError::InvalidObjectReference),
        };
        proof {
            lemma_update_wf(s, i as int, self.objects@[i as int].object);
        }
        r
    }

    /// The outcome of resizing pool `pool_id`.
    pub open spec fn resize_pool_outcome(
        &self,
        old_self: &WaylandClient,
        pool_id: u32,
        new_size: i32,
        r: Result<(), ProtocolError>,
    ) -> bool {
        &&& self.same_meta(old_self)
        &&& (!is_kind(old_self.table(), pool_id, ObjectKind::ShmPool) ==> r == Err::<(), ProtocolError>(
            ProtocolError::InvalidObjectReference,
        ) && self.table() == old_self.table())
        &&& (is_kind(old_self.table(), pool_id, ObjectKind::ShmPool) ==> {
            &&& r is Ok
            &&& self.table() == old_self.table().insert(pool_id, self.table()[pool_id])
            &&& match (old_self.table()[pool_id], self.table()[pool_id]) {
                (ProtocolObject::ShmPool(a), ProtocolObject::ShmPool(b)) => b@ == resize_spec(a@, new_size),
                _ => false,
            }
        })
    }

    /// Resizes a pool; only a mapped pool changes.
    pub fn resize_pool(&mut self, pool_id: u32, new_size: i32) -> (r: Result<(), ProtocolError>)
        requires
            old(self).wf(),
        ensures
            final(self).wf(),
            final(self).resize_pool_outcome(old(self), pool_id, new_size, r),
    {
        let i = match self.find(pool_id) {
            None => return Err(ProtocolError::InvalidObjectReference),
            Some(i) => i,
        };
        match &self.objects[i].object {
            ProtocolObject::ShmPool(_) => {},
            _ => return Err(ProtocolError::InvalidObjectReference),
        }
        let ghost s = self.objects@;
        proof {
            assert(object_wf(s[i as int].object));
        }
        let r = match &mut self.objects[i].object {
            ProtocolObject::ShmPool(pool) => {
                pool.handle_resize(new_size);
                Ok(())
            },
            _ => Err(ProtocolError::InvalidObjectReference),
        };
        proof {
            lemma_update_wf(s, i as int, self.objects@[i as int].object);
        }
        r
    }

    /// The outcome of destroying buffer `buffer_id`.
    pub open spec fn destroy_buffer_outcome(
        &self,
        old_self: &WaylandClient,
        buffer_id: u32,
        r: Result<(), ProtocolError>,
    ) -> bool {
        &&& self.same_meta(old_self)
        &&& (!is_kind(old_self.table(), buffer_id, ObjectKind::Buffer) ==> r == Err::<(), ProtocolError>(
            ProtocolError::InvalidObjectReference,
        ) && self.table() == old_self.table())
        &&& (is_kind(old_self.table(), buffer_id, ObjectKind::Buffer) ==> match old_self.table()[buffer_id] {
            ProtocolObject::Buffer(b) => {
                let t = old_self.table().remove(buffer_id);
                &&& r is Ok
                &&& !is_kind(t, b.parent_pool_id, ObjectKind::ShmPool) ==> self.table() == t
                &&& is_kind(t, b.parent_pool_id, ObjectKind::ShmPool) ==> {
                    &&& self.table() == t.insert(b.parent_pool_id, self.table()[b.parent_pool_id])
                    &&& match (t[b.parent_pool_id], self.table()[b.parent_pool_id]) {
                        (ProtocolObject::ShmPool(p), ProtocolObject::ShmPool(q)) => q@ == (PoolView {
                            map_state: buffer_destroyed_state(p@.map_state, p@.buffers, buffer_id),
                            buffers: p@.buffers.remove(buffer_id),
                            ..p@
                        }),
                        _ => false,
                    }
                }
            },
            _ => false,
        })
    }

    /// Destroys a buffer: it leaves the table and its pool's outstanding set,
    /// which may complete the pool's deferred unmap.
    pub fn destroy_buffer(&mut self, buffer_id: u32) -> (r: Result<(), ProtocolError>)
        requires
            old(self).wf(),
        ensures
            final(self).wf(),
            final(self).destroy_buffer_outcome(old(self), buffer_id, r),
    {
        let i = match self.find(buffer_id) {
            None => return Err(ProtocolError::InvalidObjectReference),
            Some(i) => i,
        };
        let parent = match &self.objects[i].object {
            ProtocolObject::Buffer(b) => b.parent_pool_id,
            _ => return Err(ProtocolError::InvalidObjectReference),
        };
        let ghost s = self.objects@;
        proof {
            lemma_index_of(s, i as int);
            assert(object_wf(s[i as int].object));
        }
        self.objects.remove(i);
        proof {
            lemma_remove_wf(s, i as int);
        }
        let _ = self.signal_buffer_destroyed(parent, buffer_id);
        Ok(())
    }

    /// The outcome of a double-buffer request on surface `surface_id`.
    pub open spec fn surface_request_outcome(
        &self,
        old_self: &WaylandClient,
        surface_id: u32,
        op: SurfaceOp,
        r: Result<(), ProtocolError>,
    ) -> bool {
        &&& self.same_meta(old_self)
        &&& (!is_kind(old_self.table(), surface_id, ObjectKind::Surface) ==> r == Err::<(), ProtocolError>(
            ProtocolError::InvalidObjectReference,
        ) && self.table() == old_self.table())
        &&& (is_kind(old_self.table(), surface_id, ObjectKind::Surface) ==> {
            &&& r is Ok
            &&& self.table() == old_self.table().insert(surface_id, self.table()[surface_id])
            &&& match (old_self.table()[surface_id], self.table()[surface_id]) {
                (ProtocolObject::Surface(a), ProtocolObject::Surface(b)) => b@ == surface_op_spec(a@, op),
                _ => false,
            }
        })
    }

    /// Applies an attach, damage, frame or commit request to a surface.
    pub fn surface_request(&mut self, surface_id: u32, op: SurfaceOp) -> (r: Result<(), ProtocolError>)
        requires
            old(self).wf(),
        ensures
            final(self).wf(),
            final(self).surface_request_outcome(old(self), surface_id, op, r),
    {
        let i = match self.find(surface_id) {
            None => return Err(ProtocolError::InvalidObjectReference),
            Some(i) => i,
        };
        match &self.objects[i].object {
            ProtocolObject::Surface(_) => {},
            _ => return Err(ProtocolError::InvalidObjectReference),
        }
        let ghost s = self.objects@;
        let r = match &mut self.objects[i].object {
            ProtocolObject::Surface(surface) => {
                match op {
                    SurfaceOp::Attach { buffer_id, x, y } => surface.handle_attach(buffer_id, x, y),
                    SurfaceOp::Damage { x, y, width, height } => surface.handle_damage(x, y, width, height),
                    SurfaceOp::Frame { callback_id } => surface.handle_frame(callback_id),
                    SurfaceOp::Commit => surface.handle_commit(),
                }
                Ok(())
            },
            _ => Err(ProtocolError::InvalidObjectReference),
        };
        proof {
            lemma_update_wf(s, i as int, self.objects@[i as int].object);
        }
        r
    }

    /// The outcome of setting the cursor through pointer `pointer_id`.
    pub open spec fn set_cursor_outcome(
        &self,
        old_self: &WaylandClient,
        pointer_id: u32,
        surface_id: u32,
        r: Result<(), ProtocolError>,
    ) -> bool {
        &&& self.same_meta(old_self)
        &&& (!is_kind(old_self.table(), pointer_id, ObjectKind::Pointer) ==> r == Err::<(), ProtocolError>(
            ProtocolError::InvalidObjectReference,
        ) && self.table() == old_self.table())
        &&& (is_kind(old_self.table(), pointer_id, ObjectKind::Pointer) ==> {
            &&& r is Ok
            &&& self.table() == old_self.table().insert(pointer_id, self.table()[pointer_id])
            &&& match (old_self.table()[pointer_id], self.table()[pointer_id]) {
                (ProtocolObject::Pointer(a), ProtocolObject::Pointer(b)) => b.cursors() == a.cursors().insert(
                    old_self.id,
                    surface_id,
                ),
                _ => false,
            }
        })
    }

    /// Records this client's cursor surface on a pointer. The cursor role is
    /// kept by the pointer, apart from the surface's shell role.
    pub fn set_cursor(&mut self, pointer_id: u32, surface_id: u32) -> (r: Result<(), ProtocolError>)
        requires
            old(self).wf(),
        ensures
            final(self).wf(),
            final(self).set_cursor_outcome(old(self), pointer_id, surface_id, r),
    {
        let i = match self.find(pointer_id) {
            None => return Err(ProtocolError::InvalidObjectReference),
            Some(i) => i,
        };
        match &self.objects[i].object {
            ProtocolObject::Pointer(_) => {},
            _ => return Err(ProtocolError::InvalidObjectReference),
        }
        let client_id = self.id;
        let ghost s = self.objects@;
        proof {
            assert(object_wf(s[i as int].object));
        }
        let r = match &mut self.objects[i].object {
            ProtocolObject::Pointer(pointer) => {
                pointer.handle_set_cursor(client_id, surface_id);
                Ok(())
            },
            _ => Err(ProtocolError::InvalidObjectReference),
        };
        proof {
            lemma_update_wf(s, i as int, self.objects@[i as int].object);
        }
        r
    }
}

} // verus!
