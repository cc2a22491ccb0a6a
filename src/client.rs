use vstd::prelude::*;
use crate::display::{WlCompositor, WlDisplay};
use crate::object::{
    contains_id, index_of, kind_of, lemma_index_of, lemma_push_wf, lemma_update_wf, object_wf,
    table_of, table_wf, unique_ids, ObjectEntry, ObjectKind, ProtocolObject,
};
use crate::protocol::{
    global_list, global_table, globals_view, Event, ProtocolError, LAST_GLOBAL_ID, WL_COMPOSITOR_ID, WL_DISPLAY_ID,
    WL_SEAT_ID, WL_SHM_ID, XDG_WM_BASE_ID,
};
use crate::seat::WlSeat;
use crate::shell::XdgWmBase;
use crate::shm::WlShm;
use crate::surface::{role_name_spec, set_role_spec, SurfaceRole};

verus! {

/// One client connection: the sole owner and mutator of its protocol objects.
pub struct WaylandClient {
    pub id: u32,
    pub client_socket_fd: i32,
    /// The object table; ids are unique.
    pub objects: Vec<ObjectEntry>,
    /// The last serial handed out; 0 before the first.
    pub last_serial: u32,
    /// Events queued for the client, oldest first.
    pub events: Vec<Event>,
}

/// A serial the session has handed out: serials run from 1 to the last one.
pub open spec fn serial_issued(last_serial: u32, serial: u32) -> bool {
    1 <= serial <= last_serial
}

/// Serials start at 1 and each new one is greater than every serial issued
/// before it, so none repeats within a session.
pub proof fn lemma_serials_strictly_increase(last_serial: u32)
    requires
        last_serial < u32::MAX,
    ensures
        forall|s: u32| serial_issued(last_serial, s) ==> s < last_serial + 1,
        !serial_issued(last_serial, (last_serial + 1) as u32),
        forall|s: u32| #[trigger] serial_issued((last_serial + 1) as u32, s) <==> serial_issued(last_serial, s) || s
            == last_serial + 1,
        last_serial == 0 ==> forall|s: u32| !serial_issued(last_serial, s),
{
}

pub open spec fn is_kind(t: Map<u32, ProtocolObject>, id: u32, k: ObjectKind) -> bool {
    t.contains_key(id) && kind_of(t[id]) == k
}

impl WaylandClient {
    pub open spec fn table(&self) -> Map<u32, ProtocolObject> {
        table_of(self.objects@)
    }

    pub open spec fn wf(&self) -> bool {
        table_wf(self.objects@)
    }

    /// Same connection, same serial counter and event queue.
    pub open spec fn same_meta(&self, other: &WaylandClient) -> bool {
        &&& self.id == other.id
        &&& self.client_socket_fd == other.client_socket_fd
        &&& self.last_serial == other.last_serial
        &&& self.events@ == other.events@
    }

    /// A session holding exactly the five globals.
    pub fn new(id: u32, client_socket_fd: i32) -> (r: Self)
        ensures
            r.wf(),
            r.id == id,
            r.client_socket_fd == client_socket_fd,
            r.last_serial == 0,
            r.events@.len() == 0,
            r.table().dom() == set![1u32, 2u32, 3u32, 4u32, 5u32],
    {
        let objects = vec![
            ObjectEntry { id: WL_DISPLAY_ID, object: ProtocolObject::Display(WlDisplay::new()) },
            ObjectEntry { id: WL_COMPOSITOR_ID, object: ProtocolObject::Compositor(WlCompositor::new()) },
            ObjectEntry { id: WL_SHM_ID, object: ProtocolObject::Shm(WlShm::new()) },
            ObjectEntry { id: XDG_WM_BASE_ID, object: ProtocolObject::WmBase(XdgWmBase::new()) },
            ObjectEntry { id: WL_SEAT_ID, object: ProtocolObject::Seat(WlSeat::new()) },
        ];
        let r = WaylandClient { id, client_socket_fd, objects, last_serial: 0, events: Vec::new() };
        proof {
            let s = r.objects@;
            assert(unique_ids(s));
            lemma_index_of(s, 0);
            lemma_index_of(s, 1);
            lemma_index_of(s, 2);
            lemma_index_of(s, 3);
            lemma_index_of(s, 4);
            assert forall|k: u32| r.table().dom().contains(k) <==> set![1u32, 2u32, 3u32, 4u32, 5u32].contains(k) by {
                if contains_id(s, k) {
                    let j = index_of(s, k);
                    assert(0 <= j < 5);
                }
            }
            assert(r.table().dom() =~= set![1u32, 2u32, 3u32, 4u32, 5u32]);
        }
        r
    }

    pub fn get_id(&self) -> (r: u32)
        ensures
            r == self.id,
    {
        self.id
    }

    /// Index of the object with this id in the table.
    pub fn find(&self, id: u32) -> (r: Option<usize>)
        requires
            self.wf(),
        ensures
            r matches Some(i) ==> i < self.objects@.len() && self.objects@[i as int].id == id
                && self.table().contains_key(id) && self.table()[id] == self.objects@[i as int].object,
            r is None ==> !self.table().contains_key(id),
    {
        let mut i: usize = 0;
        while i < self.objects.len()
            invariant
                0 <= i <= self.objects@.len(),
                self.wf(),
                forall|k: int| 0 <= k < i ==> self.objects@[k].id != id,
            decreases self.objects@.len() - i,
        {
            if self.objects[i].id == id {
                proof {
                    lemma_index_of(self.objects@, i as int);
                }
                return Some(i);
            }
            i = i + 1;
        }
        None
    }

    /// The object with this id, if the session holds one.
    pub fn get_global(&self, id: u32) -> (r: Option<&ProtocolObject>)
        requires
            self.wf(),
        ensures
            r matches Some(o) ==> self.table().contains_key(id) && *o == self.table()[id],
            r is None <==> !self.table().contains_key(id),
    {
        match self.find(id) {
            Some(i) => Some(&self.objects[i].object),
            None => None,
        }
    }

    /// The kind of the object with this id, if any.
    pub fn object_kind(&self, id: u32) -> (r: Option<ObjectKind>)
        requires
            self.wf(),
        ensures
            r matches Some(k) ==> self.table().contains_key(id) && kind_of(self.table()[id]) == k,
            r is None <==> !self.table().contains_key(id),
    {
        match self.find(id) {
            Some(i) => Some(self.objects[i].object.kind()),
            None => None,
        }
    }

    /// Adds a client-created object under a fresh id above the globals.
    pub fn add_object(&mut self, id: u32, object: ProtocolObject) -> (r: Result<(), ProtocolError>)
        requires
            old(self).wf(),
            object_wf(object),
        ensures
            final(self).wf(),
            final(self).same_meta(old(self)),
            (id <= LAST_GLOBAL_ID || old(self).table().contains_key(id)) ==> r == Err::<(), ProtocolError>(
                ProtocolError::InvalidObjectReference,
            ) && final(self).table() == old(self).table(),
            !(id <= LAST_GLOBAL_ID || old(self).table().contains_key(id)) ==> r is Ok && final(self).table()
                == old(self).table().insert(id, object),
    {
        if id <= LAST_GLOBAL_ID {
            return Err(ProtocolError::InvalidObjectReference);
        }
        match self.find(id) {
            Some(_) => Err(ProtocolError::InvalidObjectReference),
            None => {
                let ghost s = self.objects@;
                proof {
                    lemma_push_wf(s, ObjectEntry { id, object });
                }
                self.objects.push(ObjectEntry { id, object });
                Ok(())
            }
        }
    }

    /// The advertised globals; the same five entries whatever the session did.
    pub fn list_globals(&self) -> (r: Vec<(u32, &'static str, u32)>)
        ensures
            globals_view(r@) == global_table(),
    {
        global_list()
    }

    /// Hands out the next serial: one more than the last, starting at 1.
    pub fn next_serial(&mut self) -> (r: u32)
        requires
            old(self).last_serial < u32::MAX,
        ensures
            r == old(self).last_serial + 1,
            final(self).last_serial == r,
            forall|s: u32| serial_issued(old(self).last_serial, s) ==> s < r,
            final(self).objects == old(self).objects,
            final(self).events == old(self).events,
            final(self).id == old(self).id,
            final(self).client_socket_fd == old(self).client_socket_fd,
    {
        self.last_serial = self.last_serial + 1;
        self.last_serial
    }

    /// Takes the queued events, oldest first.
    pub fn take_events(&mut self) -> (r: Vec<Event>)
        ensures
            r@ == old(self).events@,
            final(self).events@.len() == 0,
            final(self).objects == old(self).objects,
            final(self).last_serial == old(self).last_serial,
            final(self).id == old(self).id,
            final(self).client_socket_fd == old(self).client_socket_fd,
    {
        let mut taken: Vec<Event> = Vec::new();
        std::mem::swap(&mut taken, &mut self.events);
        taken
    }

    /// The role name of a surface, if it is a surface with a role.
    pub fn get_surface_role(&self, surface_id: u32) -> (r: Option<String>)
        requires
            self.wf(),
        ensures
            !is_kind(self.table(), surface_id, ObjectKind::Surface) ==> r is None,
            is_kind(self.table(), surface_id, ObjectKind::Surface) ==> match self.table()[surface_id] {
                ProtocolObject::Surface(s) => (r is None <==> s.role is None) && (r matches Some(n)
                    ==> role_name_spec(s.role) == Some(n@)),
                _ => false,
            },
    {
        match self.get_global(surface_id) {
            Some(ProtocolObject::Surface(s)) => s.get_role_name(),
            _ => None,
        }
    }

    /// Assigns a role to a surface; a surface that has one refuses and stays unchanged.
    pub fn set_surface_role(&mut self, surface_id: u32, role: SurfaceRole) -> (r: Result<(), ProtocolError>)
        requires
            old(self).wf(),
        ensures
            final(self).wf(),
            final(self).same_meta(old(self)),
            !is_kind(old(self).table(), surface_id, ObjectKind::Surface) ==> r == Err::<(), ProtocolError>(
                ProtocolError::InvalidObjectReference,
            ) && final(self).table() == old(self).table(),
            is_kind(old(self).table(), surface_id, ObjectKind::Surface) ==> {
                &&& is_kind(final(self).table(), surface_id, ObjectKind::Surface)
                &&& final(self).table() == old(self).table().insert(surface_id, final(self).table()[surface_id])
                &&& match (old(self).table()[surface_id], final(self).table()[surface_id]) {
                    (ProtocolObject::Surface(a), ProtocolObject::Surface(b)) => (b@, r) == set_role_spec(a@, role),
                    _ => false,
                }
            },
    {
        match self.find(surface_id) {
            None => Err(ProtocolError::InvalidObjectReference),
            Some(i) => {
                let ghost s = self.objects@;
                let r = match &mut self.objects[i].object {
                    ProtocolObject::Surface(surface) => surface.set_role(role),
                    _ => Err(ProtocolError::InvalidObjectReference),
                };
                proof {
                    lemma_update_wf(s, i as int, self.objects@[i as int].object);
                }
                r
            }
        }
    }

    /// Tells a pool that one of its buffers is gone; returns whether the pool unmapped now.
    pub fn signal_buffer_destroyed(&mut self, pool_id: u32, buffer_id: u32) -> (r: bool)
        requires
            old(self).wf(),
        ensures
            final(self).wf(),
            final(self).same_meta(old(self)),
            !is_kind(old(self).table(), pool_id, ObjectKind::ShmPool) ==> !r && final(self).table() == old(self).table(),
            is_kind(old(self).table(), pool_id, ObjectKind::ShmPool) ==> {
                &&& is_kind(final(self).table(), pool_id, ObjectKind::ShmPool)
                &&& final(self).table() == old(self).table().insert(pool_id, final(self).table()[pool_id])
                &&& match (old(self).table()[pool_id], final(self).table()[pool_id]) {
                    (ProtocolObject::ShmPool(a), ProtocolObject::ShmPool(b)) => {
                        &&& b@ == (crate::shm::PoolView {
                            map_state: crate::shm::buffer_destroyed_state(a@.map_state, a@.buffers, buffer_id),
                            buffers: a@.buffers.remove(buffer_id),
                            ..a@
                        })
                        &&& r == (a@.map_state != crate::shm::MapState::Destroyed && b@.map_state
                            == crate::shm::MapState::Destroyed)
                    },
                    _ => false,
                }
            },
    {
        match self.find(pool_id) {
            None => false,
            Some(i) => {
                let ghost s = self.objects@;
                proof {
                    assert(object_wf(s[i as int].object));
                }
                let r = match &mut self.objects[i].object {
                    ProtocolObject::ShmPool(pool) => pool.buffer_destroyed(buffer_id),
                    _ => false,
                };
                proof {
                    lemma_update_wf(s, i as int, self.objects@[i as int].object);
                }
                r
            }
        }
    }
}

} // verus!
