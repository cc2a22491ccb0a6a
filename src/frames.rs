use vstd::prelude::*;
use crate::client::WaylandClient;
use crate::object::{lemma_update_wf, table_wf, ObjectEntry, ProtocolObject};
use crate::protocol::Event;
use crate::shm::MapState;
use crate::surface::SurfaceView;

verus! {

/// The frame callbacks an object holds.
pub open spec fn callbacks_of(o: ProtocolObject) -> Seq<u32> {
    match o {
        ProtocolObject::Surface(s) => s.frame_callbacks@,
        _ => Seq::empty(),
    }
}

/// Every registered frame callback of a table, in table order.
pub open spec fn all_callbacks(s: Seq<ObjectEntry>) -> Seq<u32>
    decreases s.len(),
{
    if s.len() == 0 {
        Seq::empty()
    } else {
        all_callbacks(s.drop_last()) + callbacks_of(s.last().object)
    }
}

/// `b` is `a` with its frame callbacks handed out.
pub open spec fn callbacks_cleared(a: ProtocolObject, b: ProtocolObject) -> bool {
    match (a, b) {
        (ProtocolObject::Surface(x), ProtocolObject::Surface(y)) => y@ == (SurfaceView { frame_callbacks: Seq::empty(), ..x@ }),
        (ProtocolObject::Surface(_), _) => false,
        _ => b == a,
    }
}

pub open spec fn done_events(callbacks: Seq<u32>) -> Seq<Event> {
    callbacks.map_values(|c: u32| Event::Done { callback_id: c })
}

/// What the compositor draws of one surface: its committed buffer and offset.
#[derive(Clone, Copy, Debug)]
pub struct SurfaceSnapshot {
    pub client_id: u32,
    pub surface_id: u32,
    pub buffer_id: u32,
    pub offset: (i32, i32),
}

pub open spec fn snapshot_of(client_id: u32, e: ObjectEntry) -> Seq<SurfaceSnapshot> {
    match e.object {
        ProtocolObject::Surface(s) => match s.current.buffer {
            Some(b) => seq![SurfaceSnapshot { client_id, surface_id: e.id, buffer_id: b, offset: s.current.offset }],
            None => Seq::empty(),
        },
        _ => Seq::empty(),
    }
}

/// The committed state of every surface with a buffer, in table order.
pub open spec fn snapshots(client_id: u32, s: Seq<ObjectEntry>) -> Seq<SurfaceSnapshot>
    decreases s.len(),
{
    if s.len() == 0 {
        Seq::empty()
    } else {
        snapshots(client_id, s.drop_last()) + snapshot_of(client_id, s.last())
    }
}

/// Ids of the pools whose memory is still mapped, in table order.
pub open spec fn mapped_pools(s: Seq<ObjectEntry>) -> Seq<u32>
    decreases s.len(),
{
    if s.len() == 0 {
        Seq::empty()
    } else {
        mapped_pools(s.drop_last()) + match s.last().object {
            ProtocolObject::ShmPool(p) => if p@.map_state != MapState::Destroyed {
                seq![s.last().id]
            } else {
                Seq::empty()
            },
            _ => Seq::empty(),
        }
    }
}

/// A table whose objects hold no frame callbacks fires none.
pub proof fn lemma_no_callbacks_left(s: Seq<ObjectEntry>)
    requires
        forall|i: int| 0 <= i < s.len() ==> #[trigger] callbacks_of(s[i].object).len() == 0,
    ensures
        all_callbacks(s) == Seq::<u32>::empty(),
    decreases s.len(),
{
    if s.len() > 0 {
        let d = s.drop_last();
        assert forall|i: int| 0 <= i < d.len() implies #[trigger] callbacks_of(d[i].object).len() == 0 by {
            assert(d[i] == s[i]);
        }
        lemma_no_callbacks_left(d);
        assert(callbacks_of(s[s.len() - 1].object).len() == 0);
        assert(all_callbacks(s) =~= Seq::<u32>::empty());
    }
}

/// Each tick fires exactly the callbacks registered since the previous one:
/// once fired and cleared, a callback is never fired again by a later tick,
/// and a callback registered after a tick waits for the next one.
pub proof fn lemma_tick_fires_once(before: Seq<ObjectEntry>, after: Seq<ObjectEntry>)
    requires
        after.len() == before.len(),
        forall|i: int| 0 <= i < before.len() ==> callbacks_cleared(#[trigger] before[i].object, after[i].object),
    ensures
        all_callbacks(after) == Seq::<u32>::empty(),
{
    assert forall|i: int| 0 <= i < after.len() implies #[trigger] callbacks_of(after[i].object).len() == 0 by {
        assert(callbacks_cleared(before[i].object, after[i].object));
    }
    lemma_no_callbacks_left(after);
}

impl WaylandClient {
    /// Fires every registered frame callback once: queues a done event for
    /// each, in table order, forgets them, and returns their ids.
    pub fn fire_frame_callbacks(&mut self) -> (r: Vec<u32>)
        requires
            old(self).wf(),
        ensures
            final(self).wf(),
            final(self).id == old(self).id,
            final(self).client_socket_fd == old(self).client_socket_fd,
            final(self).last_serial == old(self).last_serial,
            r@ == all_callbacks(old(self).objects@),
            final(self).events@ == old(self).events@ + done_events(r@),
            final(self).objects@.len() == old(self).objects@.len(),
            forall|i: int| 0 <= i < old(self).objects@.len() ==> (#[trigger] final(self).objects@[i]).id == old(self).objects@[i].id
                && callbacks_cleared(old(self).objects@[i].object, final(self).objects@[i].object),
            all_callbacks(final(self).objects@) == Seq::<u32>::empty(),
    {
        let ghost s0 = self.objects@;
        let ghost e0 = self.events@;
        let mut fired: Vec<u32> = Vec::new();
        let mut i: usize = 0;
        while i < self.objects.len()
            invariant
                0 <= i <= s0.len(),
                self.objects@.len() == s0.len(),
                table_wf(self.objects@),
                self.id == old(self).id,
                self.client_socket_fd == old(self).client_socket_fd,
                self.last_serial == old(self).last_serial,
                fired@ == all_callbacks(s0.take(i as int)),
                self.events@ == e0 + done_events(fired@),
                forall|k: int| 0 <= k < i ==> (#[trigger] self.objects@[k]).id == s0[k].id && callbacks_cleared(
                    s0[k].object,
                    self.objects@[k].object,
                ),
                forall|k: int| i <= k < s0.len() ==> #[trigger] self.objects@[k] == s0[k],
            decreases s0.len() - i,
        {
            let ghost s = self.objects@;
            let taken = match &mut self.objects[i].object {
                ProtocolObject::Surface(surface) => surface.take_frame_callbacks(),
                _ => Vec::new(),
            };
            proof {
                lemma_update_wf(s, i as int, self.objects@[i as int].object);
                assert(s0.take(i as int + 1).drop_last() =~= s0.take(i as int));
                assert(s0.take(i as int + 1).last() == s0[i as int]);
                assert(taken@ == callbacks_of(s0[i as int].object));
            }
            let mut k: usize = 0;
            let ghost f0 = fired@;
            let ghost ev0 = self.events@;
            let ghost s_after = self.objects@;
            while k < taken.len()
                invariant
                    0 <= k <= taken@.len(),
                    fired@ == f0 + taken@.take(k as int),
                    self.events@ == ev0 + done_events(taken@.take(k as int)),
                    self.objects@ == s_after,
                    self.id == old(self).id,
                    self.client_socket_fd == old(self).client_socket_fd,
                    self.last_serial == old(self).last_serial,
                decreases taken@.len() - k,
            {
                let c = taken[k];
                fired.push(c);
                self.events.push(Event::Done { callback_id: c });
                proof {
                    assert(taken@.take(k as int + 1) =~= taken@.take(k as int).push(c));
                    assert(fired@ =~= f0 + taken@.take(k as int + 1));
                    assert(done_events(taken@.take(k as int + 1)) =~= done_events(taken@.take(k as int)).push(
                        Event::Done { callback_id: c },
                    ));
                    assert(self.events@ =~= ev0 + done_events(taken@.take(k as int + 1)));
                }
                k = k + 1;
            }
            proof {
                assert(taken@.take(taken@.len() as int) =~= taken@);
                assert(done_events(f0 + taken@) =~= done_events(f0) + done_events(taken@));
                assert(self.events@ =~= e0 + done_events(fired@));
            }
            i = i + 1;
        }
        proof {
            assert(s0.take(s0.len() as int) =~= s0);
            lemma_tick_fires_once(s0, self.objects@);
        }
        fired
    }
}

impl WaylandClient {
    /// The committed (never the pending) state of every surface that has a
    /// buffer, in table order.
    pub fn committed_surfaces(&self) -> (r: Vec<SurfaceSnapshot>)
        ensures
            r@ == snapshots(self.id, self.objects@),
    {
        let mut r: Vec<SurfaceSnapshot> = Vec::new();
        let mut i: usize = 0;
        while i < self.objects.len()
            invariant
                0 <= i <= self.objects@.len(),
                r@ == snapshots(self.id, self.objects@.take(i as int)),
            decreases self.objects@.len() - i,
        {
            let ghost before = r@;
            match &self.objects[i].object {
                ProtocolObject::Surface(s) => match s.current.buffer {
                    Some(b) => {
                        r.push(SurfaceSnapshot { client_id: self.id, surface_id: self.objects[i].id, buffer_id: b, offset: s.current.offset });
                    },
                    None => {},
                },
                _ => {},
            }
            proof {
                let t = self.objects@.take(i as int + 1);
                assert(t.drop_last() =~= self.objects@.take(i as int));
                assert(t.last() == self.objects@[i as int]);
                assert(r@ =~= before + snapshot_of(self.id, self.objects@[i as int]));
            }
            i = i + 1;
        }
        proof {
            assert(self.objects@.take(self.objects@.len() as int) =~= self.objects@);
        }
        r
    }

    /// Tears the session down: every pool still mapped, deferred ones
    /// included, is unmapped, and all objects are released. Returns the ids
    /// of the pools this unmapped, in table order.
    pub fn disconnect(self) -> (r: Vec<u32>)
        ensures
            r@ == mapped_pools(self.objects@),
    {
        let mut objects = self.objects;
        let ghost s0 = objects@;
        let mut unmapped: Vec<u32> = Vec::new();
        let mut i: usize = 0;
        while i < objects.len()
            invariant
                0 <= i <= s0.len(),
                objects@.len() == s0.len(),
                unmapped@ == mapped_pools(s0.take(i as int)),
                forall|k: int| 0 <= k < s0.len() ==> (#[trigger] objects@[k]).id == s0[k].id,
                forall|k: int| i <= k < s0.len() ==> #[trigger] objects@[k] == s0[k],
            decreases s0.len() - i,
        {
            let id = objects[i].id;
            let ghost before = unmapped@;
            match &mut objects[i].object {
                ProtocolObject::ShmPool(pool) => {
                    if pool.unmap() {
                        unmapped.push(id);
                    }
                },
                _ => {},
            }
            proof {
                let t = s0.take(i as int + 1);
                assert(t.drop_last() =~= s0.take(i as int));
                assert(t.last() == s0[i as int]);
            }
            i = i + 1;
        }
        proof {
            assert(s0.take(s0.len() as int) =~= s0);
        }
        unmapped
    }
}

} // verus!
