use vstd::prelude::*;
use crate::client::WaylandClient;
use crate::frames::{all_callbacks, callbacks_cleared, mapped_pools, snapshots, SurfaceSnapshot};

verus! {

/// Every committed surface of the registered sessions, session by session.
pub open spec fn all_snapshots(cs: Seq<WaylandClient>) -> Seq<SurfaceSnapshot>
    decreases cs.len(),
{
    if cs.len() == 0 {
        Seq::empty()
    } else {
        all_snapshots(cs.drop_last()) + snapshots(cs.last().id, cs.last().objects@)
    }
}

/// Every registered frame callback, as (session id, callback id), session by session.
pub open spec fn all_fired(cs: Seq<WaylandClient>) -> Seq<(u32, u32)>
    decreases cs.len(),
{
    if cs.len() == 0 {
        Seq::empty()
    } else {
        all_fired(cs.drop_last()) + all_callbacks(cs.last().objects@).map_values(|c: u32| (cs.last().id, c))
    }
}

/// What one scheduler tick produced: the callbacks it fired and the
/// surfaces to hand to the renderer, bottom first.
pub struct FrameOutput {
    pub fired: Vec<(u32, u32)>,
    pub surfaces: Vec<SurfaceSnapshot>,
}

/// The process-wide registry of live sessions.
pub struct AppState {
    pub clients: Vec<WaylandClient>,
}

impl AppState {
    pub open spec fn wf(&self) -> bool {
        &&& forall|i: int| 0 <= i < self.clients@.len() ==> #[trigger] self.clients@[i].wf()
        &&& forall|i: int, j: int|
            0 <= i < self.clients@.len() && 0 <= j < self.clients@.len() && i != j ==> self.clients@[i].id
                != self.clients@[j].id
    }

    pub open spec fn has_session(&self, session_id: u32) -> bool {
        exists|i: int| 0 <= i < self.clients@.len() && self.clients@[i].id == session_id
    }

    pub fn new() -> (r: Self)
        ensures
            r.wf(),
            r.clients@.len() == 0,
    {
        AppState { clients: Vec::new() }
    }

    fn position(&self, session_id: u32) -> (r: Option<usize>)
        ensures
            r matches Some(i) ==> i < self.clients@.len() && self.clients@[i as int].id == session_id,
            r is None ==> !self.has_session(session_id),
    {
        let mut i: usize = 0;
        while i < self.clients.len()
            invariant
                0 <= i <= self.clients@.len(),
                forall|k: int| 0 <= k < i ==> self.clients@[k].id != session_id,
            decreases self.clients@.len() - i,
        {
            if self.clients[i].id == session_id {
                return Some(i);
            }
            i = i + 1;
        }
        None
    }

    /// Registers an accepted session; a session id already registered is refused.
    pub fn register(&mut self, client: WaylandClient) -> (r: bool)
        requires
            old(self).wf(),
            client.wf(),
        ensures
            final(self).wf(),
            r == !old(self).has_session(client.id),
            r ==> final(self).clients@ == old(self).clients@.push(client),
            !r ==> final(self).clients@ == old(self).clients@,
    {
        match self.position(client.id) {
            Some(_) => false,
            None => {
                self.clients.push(client);
                true
            },
        }
    }

    /// Tears a session down completely, then removes it. Returns the pools it
    /// had still mapped, or `None` when no such session is registered.
    pub fn deregister(&mut self, session_id: u32) -> (r: Option<Vec<u32>>)
        requires
            old(self).wf(),
        ensures
            final(self).wf(),
            r is None <==> !old(self).has_session(session_id),
            r is None ==> final(self).clients@ == old(self).clients@,
            r matches Some(v) ==> exists|i: int|
                0 <= i < old(self).clients@.len() && old(self).clients@[i].id == session_id
                    && final(self).clients@ == old(self).clients@.remove(i)
                    && v@ == mapped_pools(old(self).clients@[i].objects@),
            !final(self).has_session(session_id),
    {
        match self.position(session_id) {
            None => None,
            Some(i) => {
                let ghost s = self.clients@;
                let client = self.clients.remove(i);
                assert(client == s[i as int]);
                proof {
                    assert forall|a: int| 0 <= a < self.clients@.len() implies #[trigger] self.clients@[a].wf() by {
                        if a < i {
                            assert(self.clients@[a] == s[a]);
                        } else {
                            assert(self.clients@[a] == s[a + 1]);
                        }
                    }
                    assert forall|a: int, b: int|
                        0 <= a < self.clients@.len() && 0 <= b < self.clients@.len() && a != b implies self.clients@[a].id
                            != self.clients@[b].id by {
                        let a2 = if a < i { a } else { a + 1 };
                        let b2 = if b < i { b } else { b + 1 };
                        assert(self.clients@[a] == s[a2]);
                        assert(self.clients@[b] == s[b2]);
                    }
                    if self.has_session(session_id) {
                        let k = choose|k: int| 0 <= k < self.clients@.len() && self.clients@[k].id == session_id;
                        let k2 = if k < i { k } else { k + 1 };
                        assert(self.clients@[k] == s[k2]);
                    }
                }
                Some(client.disconnect())
            },
        }
    }

    /// One scheduler tick: for each session, in order, gathers the committed
    /// surfaces and fires the due frame callbacks.
    pub fn tick(&mut self) -> (r: FrameOutput)
        requires
            old(self).wf(),
        ensures
            final(self).wf(),
            r.surfaces@ == all_snapshots(old(self).clients@),
            r.fired@ == all_fired(old(self).clients@),
            final(self).clients@.len() == old(self).clients@.len(),
            forall|i: int| 0 <= i < old(self).clients@.len() ==> {
                let a = #[trigger] old(self).clients@[i];
                let b = final(self).clients@[i];
                &&& b.id == a.id
                &&& b.last_serial == a.last_serial
                &&& b.objects@.len() == a.objects@.len()
                &&& forall|k: int| 0 <= k < a.objects@.len() ==> (#[trigger] b.objects@[k]).id == a.objects@[k].id
                    && callbacks_cleared(a.objects@[k].object, b.objects@[k].object)
                &&& all_callbacks(b.objects@) == Seq::<u32>::empty()
            },
    {
        let ghost c0 = self.clients@;
        let mut fired: Vec<(u32, u32)> = Vec::new();
        let mut surfaces: Vec<SurfaceSnapshot> = Vec::new();
        let mut i: usize = 0;
        while i < self.clients.len()
            invariant
                0 <= i <= c0.len(),
                self.clients@.len() == c0.len(),
                self.wf(),
                surfaces@ == all_snapshots(c0.take(i as int)),
                fired@ == all_fired(c0.take(i as int)),
                forall|j: int| i <= j < c0.len() ==> #[trigger] self.clients@[j] == c0[j],
                forall|j: int| 0 <= j < i ==> {
                    let a = #[trigger] c0[j];
                    let b = self.clients@[j];
                    &&& b.id == a.id
                    &&& b.last_serial == a.last_serial
                    &&& b.objects@.len() == a.objects@.len()
                    &&& forall|k: int| 0 <= k < a.objects@.len() ==> (#[trigger] b.objects@[k]).id == a.objects@[k].id
                        && callbacks_cleared(a.objects@[k].object, b.objects@[k].object)
                    &&& all_callbacks(b.objects@) == Seq::<u32>::empty()
                },
            decreases c0.len() - i,
        {
            let ghost before = self.clients@;
            let session_id = self.clients[i].id;
            let snaps = self.clients[i].committed_surfaces();
            let mut k: usize = 0;
            let ghost sv0 = surfaces@;
            while k < snaps.len()
                invariant
                    0 <= k <= snaps@.len(),
                    surfaces@ == sv0 + snaps@.take(k as int),
                decreases snaps@.len() - k,
            {
                surfaces.push(snaps[k]);
                proof {
                    assert(snaps@.take(k as int + 1) =~= snaps@.take(k as int).push(snaps@[k as int]));
                }
                k = k + 1;
            }
            proof {
                assert(snaps@.take(snaps@.len() as int) =~= snaps@);
            }
            let ids = self.clients[i].fire_frame_callbacks();
            let mut m: usize = 0;
            let ghost fv0 = fired@;
            while m < ids.len()
                invariant
                    0 <= m <= ids@.len(),
                    fired@ == fv0 + ids@.take(m as int).map_values(|c: u32| (session_id, c)),
                decreases ids@.len() - m,
            {
                fired.push((session_id, ids[m]));
                proof {
                    assert(ids@.take(m as int + 1).map_values(|c: u32| (session_id, c)) =~= ids@.take(m as int).map_values(
                        |c: u32| (session_id, c),
                    ).push((session_id, ids@[m as int])));
                }
                m = m + 1;
            }
            proof {
                assert(ids@.take(ids@.len() as int) =~= ids@);
                let t = c0.take(i as int + 1);
                assert(t.drop_last() =~= c0.take(i as int));
                assert(t.last() == c0[i as int]);
                assert(before[i as int] == c0[i as int]);
                assert forall|a: int| 0 <= a < self.clients@.len() implies #[trigger] self.clients@[a].wf() by {
                    if a != i {
                        assert(self.clients@[a] == before[a]);
                    }
                }
                assert forall|a: int, b: int|
                    0 <= a < self.clients@.len() && 0 <= b < self.clients@.len() && a != b implies self.clients@[a].id
                        != self.clients@[b].id by {
                    assert(self.clients@[a].id == before[a].id);
                    assert(self.clients@[b].id == before[b].id);
                }
            }
            i = i + 1;
        }
        proof {
            assert(c0.take(c0.len() as int) =~= c0);
        }
        FrameOutput { fired, surfaces }
    }
}

/// The virtual desktop the renderer draws into: RGBA, four bytes a pixel.
pub struct CanvasDesktop {
    pub width: u32,
    pub height: u32,
    pub buffer: Vec<u8>,
}

impl CanvasDesktop {
    pub fn new(width: u32, height: u32) -> (r: Self)
        requires
            width as int * height as int * 4 <= usize::MAX,
        ensures
            r.width == width,
            r.height == height,
            r.buffer@.len() == width as int * height as int * 4,
            forall|k: int| 0 <= k < r.buffer@.len() ==> r.buffer@[k] == 0,
    {
        let n: usize = (width as usize) * (height as usize) * 4;
        let mut buffer: Vec<u8> = Vec::new();
        let mut k: usize = 0;
        while k < n
            invariant
                0 <= k <= n,
                buffer@.len() == k,
                forall|j: int| 0 <= j < k ==> buffer@[j] == 0,
            decreases n - k,
        {
            buffer.push(0);
            k = k + 1;
        }
        CanvasDesktop { width, height, buffer }
    }

    /// Clears the canvas to black before the renderer composites the frame's surfaces.
    pub fn draw_clients(&mut self)
        ensures
            final(self).width == old(self).width,
            final(self).height == old(self).height,
            final(self).buffer@.len() == old(self).buffer@.len(),
            forall|k: int| 0 <= k < final(self).buffer@.len() ==> final(self).buffer@[k] == 0,
    {
        let mut k: usize = 0;
        while k < self.buffer.len()
            invariant
                0 <= k <= self.buffer@.len(),
                self.buffer@.len() == old(self).buffer@.len(),
                self.width == old(self).width,
                self.height == old(self).height,
                forall|j: int| 0 <= j < k ==> self.buffer@[j] == 0,
            decreases self.buffer@.len() - k,
        {
            self.buffer.set(k, 0);
            k = k + 1;
        }
    }

    pub fn to_buffer(&self) -> (r: &Vec<u8>)
        ensures
            r == &self.buffer,
    {
        &self.buffer
    }
}

} // verus!
