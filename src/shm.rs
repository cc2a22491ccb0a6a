use vstd::prelude::*;
use crate::protocol::{Event, ProtocolError};

verus! {

/// Pixel format advertised by `wl_shm`: ARGB8888.
pub const FORMAT_ARGB8888: u32 = 1;

/// Whether a pool's memory is mapped.
#[derive(Clone, Copy, Debug, PartialEq, Eq, Structural)]
pub enum MapState {
    Mmapped,
    DestroyWhenBuffersEmpty,
    Destroyed,
}

/// The `wl_shm` global: a factory for pools.
pub struct WlShm;

impl WlShm {
    pub fn new() -> (r: Self) {
        WlShm
    }

    /// The event that advertises the supported pixel format to a client that binds.
    pub fn on_bind(&self, object_id: u32) -> (r: Event)
        ensures
            r == (Event::Format { shm_id: object_id, format: FORMAT_ARGB8888 }),
    {
        Event::Format { shm_id: object_id, format: FORMAT_ARGB8888 }
    }
}

/// A `wl_shm_pool`: a mapping and the buffers carved from it.
pub struct WlShmPool {
    pub pool_id: u32,
    pub fd: i32,
    pub size: i32,
    pub map_state: MapState,
    /// Outstanding buffer ids, each once.
    pub buffers: Vec<u32>,
}

/// The mathematical model of a pool.
pub struct PoolView {
    pub pool_id: u32,
    pub fd: i32,
    pub size: i32,
    pub map_state: MapState,
    pub buffers: Set<u32>,
}

impl View for WlShmPool {
    type V = PoolView;

    open spec fn view(&self) -> PoolView {
        PoolView {
            pool_id: self.pool_id,
            fd: self.fd,
            size: self.size,
            map_state: self.map_state,
            buffers: self.buffers@.to_set(),
        }
    }
}

/// The pool invariant: deferred destruction waits on at least one buffer,
/// and an unmapped pool has none left.
pub open spec fn pool_state_wf(state: MapState, buffers: Set<u32>) -> bool {
    &&& state == MapState::DestroyWhenBuffersEmpty ==> !buffers.is_empty()
    &&& state == MapState::Destroyed ==> buffers.is_empty()
}

pub open spec fn create_buffer_spec(p: PoolView, buffer_id: u32) -> (PoolView, Result<(), ProtocolError>) {
    if p.map_state == MapState::Destroyed {
        (p, Err(ProtocolError::MapFailure))
    } else {
        (PoolView { buffers: p.buffers.insert(buffer_id), ..p }, Ok(()))
    }
}

pub open spec fn resize_spec(p: PoolView, new_size: i32) -> PoolView {
    if p.map_state == MapState::Mmapped {
        PoolView { size: new_size, ..p }
    } else {
        p
    }
}

pub open spec fn destroy_state(state: MapState, buffers: Set<u32>) -> MapState {
    if buffers.is_empty() {
        MapState::Destroyed
    } else {
        MapState::DestroyWhenBuffersEmpty
    }
}

pub open spec fn buffer_destroyed_state(state: MapState, buffers: Set<u32>, buffer_id: u32) -> MapState {
    if state == MapState::DestroyWhenBuffersEmpty && buffers.remove(buffer_id).is_empty() {
        MapState::Destroyed
    } else {
        state
    }
}

/// Pool state and outstanding set after each buffer of `order` is destroyed, in order.
pub open spec fn after_buffer_destroys(state: MapState, buffers: Set<u32>, order: Seq<u32>) -> (MapState, Set<u32>)
    decreases order.len(),
{
    if order.len() == 0 {
        (state, buffers)
    } else {
        let prev = after_buffer_destroys(state, buffers, order.drop_last());
        (buffer_destroyed_state(prev.0, prev.1, order.last()), prev.1.remove(order.last()))
    }
}

pub proof fn lemma_seq_to_set_push(s: Seq<u32>, x: u32)
    ensures
        s.push(x).to_set() == s.to_set().insert(x),
{
    assert forall|y: u32| s.push(x).to_set().contains(y) <==> s.to_set().insert(x).contains(y) by {
        if y == x {
            assert(s.push(x)[s.len() as int] == x);
        } else if s.to_set().contains(y) {
            let i = choose|i: int| 0 <= i < s.len() && s[i] == y;
            assert(s.push(x)[i] == y);
        } else if s.push(x).to_set().contains(y) {
            let i = choose|i: int| 0 <= i < s.push(x).len() && s.push(x)[i] == y;
            assert(s[i] == y);
        }
    }
    assert(s.push(x).to_set() =~= s.to_set().insert(x));
}

pub proof fn lemma_seq_to_set_remove(s: Seq<u32>, i: int)
    requires
        s.no_duplicates(),
        0 <= i < s.len(),
    ensures
        s.remove(i).to_set() == s.to_set().remove(s[i]),
        s.remove(i).no_duplicates(),
{
    let r = s.remove(i);
    assert forall|y: u32| r.to_set().contains(y) <==> s.to_set().remove(s[i]).contains(y) by {
        if r.to_set().contains(y) {
            let k = choose|k: int| 0 <= k < r.len() && r[k] == y;
            if k < i {
                assert(s[k] == y);
            } else {
                assert(s[k + 1] == y);
            }
        }
        if s.to_set().remove(s[i]).contains(y) {
            let k = choose|k: int| 0 <= k < s.len() && s[k] == y;
            assert(k != i);
            if k < i {
                assert(r[k] == y);
            } else {
                assert(r[k - 1] == y);
            }
        }
    }
    assert(r.to_set() =~= s.to_set().remove(s[i]));
    assert forall|a: int, b: int| 0 <= a < r.len() && 0 <= b < r.len() && a != b implies r[a] != r[b] by {
        let a2 = if a < i { a } else { a + 1 };
        let b2 = if b < i { b } else { b + 1 };
        assert(r[a] == s[a2]);
        assert(r[b] == s[b2]);
    }
}

/// Index of the first occurrence of `x` in `v`.
pub fn position_of(v: &Vec<u32>, x: u32) -> (r: Option<usize>)
    ensures
        r matches Some(i) ==> i < v@.len() && v@[i as int] == x,
        r matches Some(i) ==> forall|k: int| 0 <= k < i ==> v@[k] != x,
        r is None ==> !v@.contains(x),
{
    let mut i: usize = 0;
    while i < v.len()
        invariant
            0 <= i <= v@.len(),
            forall|k: int| 0 <= k < i ==> v@[k] != x,
        decreases v@.len() - i,
    {
        if v[i] == x {
            return Some(i);
        }
        i = i + 1;
    }
    None
}

impl WlShmPool {
    pub open spec fn wf(&self) -> bool {
        &&& self.buffers@.no_duplicates()
        &&& pool_state_wf(self.map_state, self.buffers@.to_set())
    }

    /// A pool over `size` bytes of `fd`; `mapped` is whether mapping them
    /// succeeded. A pool whose mapping failed starts out destroyed.
    pub fn new(pool_id: u32, fd: i32, size: i32, mapped: bool) -> (r: Self)
        ensures
            r.wf(),
            r@.pool_id == pool_id,
            r@.fd == fd,
            r@.size == size,
            r@.buffers.is_empty(),
            r@.map_state == (if mapped { MapState::Mmapped } else { MapState::Destroyed }),
    {
        let map_state = if mapped {
            MapState::Mmapped
        } else {
            MapState::Destroyed
        };
        let r = WlShmPool { pool_id, fd, size, map_state, buffers: Vec::new() };
        assert(r.buffers@.to_set() =~= Set::empty());
        r
    }

    pub fn handle_create_buffer(&mut self, buffer_id: u32) -> (r: Result<(), ProtocolError>)
        requires
            old(self).wf(),
        ensures
            final(self).wf(),
            (final(self)@, r) == create_buffer_spec(old(self)@, buffer_id),
    {
        if self.map_state == MapState::Destroyed {
            return Err(ProtocolError::MapFailure);
        }
        if let Some(_) = position_of(&self.buffers, buffer_id) {
            assert(self.buffers@.to_set().insert(buffer_id) =~= self.buffers@.to_set());
            return Ok(());
        }
        let ghost before = self.buffers@;
        self.buffers.push(buffer_id);
        proof {
            lemma_seq_to_set_push(before, buffer_id);
            assert(self.buffers@ == before.push(buffer_id));
        }
        Ok(())
    }

    pub fn handle_resize(&mut self, new_size: i32)
        ensures
            final(self)@ == resize_spec(old(self)@, new_size),
            final(self).buffers == old(self).buffers,
    {
        if self.map_state == MapState::Mmapped {
            self.size = new_size;
        }
    }

    /// Unmaps at once when no buffer is outstanding, else defers the unmap.
    pub fn handle_destroy(&mut self)
        requires
            old(self).wf(),
        ensures
            final(self).wf(),
            final(self)@ == (PoolView { map_state: destroy_state(old(self)@.map_state, old(self)@.buffers), ..old(self)@ }),
            final(self).buffers == old(self).buffers,
    {
        if self.buffers.len() == 0 {
            assert(self.buffers@.to_set() =~= Set::empty());
            self.unmap();
        } else {
            assert(self.buffers@.to_set().contains(self.buffers@[0]));
            self.map_state = MapState::DestroyWhenBuffersEmpty;
        }
    }

    /// Forgets a buffer; a deferred destruction completes once the last one goes.
    /// Returns whether this call unmapped the pool.
    pub fn buffer_destroyed(&mut self, buffer_id: u32) -> (r: bool)
        requires
            old(self).wf(),
        ensures
            final(self).wf(),
            final(self)@ == (PoolView {
                map_state: buffer_destroyed_state(old(self)@.map_state, old(self)@.buffers, buffer_id),
                buffers: old(self)@.buffers.remove(buffer_id),
                ..old(self)@
            }),
            r == (old(self)@.map_state != MapState::Destroyed && final(self)@.map_state == MapState::Destroyed),
    {
        match position_of(&self.buffers, buffer_id) {
            Some(i) => {
                let ghost before = self.buffers@;
                self.buffers.remove(i);
                proof {
                    lemma_seq_to_set_remove(before, i as int);
                }
            }
            None => {
                assert(self.buffers@.to_set().remove(buffer_id) =~= self.buffers@.to_set());
            }
        }
        if self.map_state == MapState::DestroyWhenBuffersEmpty && self.buffers.len() == 0 {
            assert(self.buffers@.to_set() =~= Set::empty());
            self.unmap();
            true
        } else {
            proof {
                if self.buffers@.len() > 0 {
                    assert(self.buffers@.to_set().contains(self.buffers@[0]));
                }
            }
            false
        }
    }

    /// Releases the mapping; returns whether it was still held.
    pub fn unmap(&mut self) -> (r: bool)
        ensures
            final(self)@ == (PoolView { map_state: MapState::Destroyed, ..old(self)@ }),
            final(self).buffers == old(self).buffers,
            r == (old(self)@.map_state != MapState::Destroyed),
    {
        let was_mapped = self.map_state != MapState::Destroyed;
        self.map_state = MapState::Destroyed;
        was_mapped
    }
}

/// A `wl_buffer`: a view into a pool's memory.
#[derive(Clone, Copy, Debug)]
pub struct WlBuffer {
    pub parent_pool_id: u32,
    pub offset: i32,
    pub width: i32,
    pub height: i32,
    pub stride: i32,
    pub format: u32,
}

impl WlBuffer {
    pub fn new(parent_pool_id: u32, offset: i32, width: i32, height: i32, stride: i32, format: u32) -> (r: Self)
        ensures
            r.parent_pool_id == parent_pool_id,
            r.offset == offset,
            r.width == width,
            r.height == height,
            r.stride == stride,
            r.format == format,
    {
        WlBuffer { parent_pool_id, offset, width, height, stride, format }
    }
}

proof fn lemma_prefix_destroys(buffers: Set<u32>, order: Seq<u32>, k: int)
    requires
        order.no_duplicates(),
        order.to_set() == buffers,
        order.len() > 0,
        0 <= k <= order.len(),
    ensures
        after_buffer_destroys(MapState::DestroyWhenBuffersEmpty, buffers, order.take(k)).1
            == buffers.difference(order.take(k).to_set()),
        after_buffer_destroys(MapState::DestroyWhenBuffersEmpty, buffers, order.take(k)).0
            == (if k < order.len() { MapState::DestroyWhenBuffersEmpty } else { MapState::Destroyed }),
        k > 0 ==> after_buffer_destroys(MapState::DestroyWhenBuffersEmpty, buffers, order.take(k - 1)).0
            != MapState::Destroyed,
    decreases k,
{
    let d = MapState::DestroyWhenBuffersEmpty;
    if k == 0 {
        assert(order.take(0) =~= Seq::<u32>::empty());
        assert(buffers.difference(Seq::<u32>::empty().to_set()) =~= buffers);
    } else {
        lemma_prefix_destroys(buffers, order, k - 1);
        let t = order.take(k);
        assert(t.drop_last() =~= order.take(k - 1));
        assert(t.last() == order[k - 1]);
        let prev = after_buffer_destroys(d, buffers, order.take(k - 1));
        lemma_seq_to_set_push(order.take(k - 1), order[k - 1]);
        assert(order.take(k - 1).push(order[k - 1]) =~= t);
        assert(prev.1.remove(order[k - 1]) =~= buffers.difference(t.to_set()));
        if k < order.len() {
            assert(buffers.contains(order[k]));
            assert(!t.to_set().contains(order[k])) by {
                if t.to_set().contains(order[k]) {
                    let j = choose|j: int| 0 <= j < t.len() && t[j] == order[k];
                    assert(order[j] == order[k]);
                }
            }
            assert(buffers.difference(t.to_set()).contains(order[k]));
        } else {
            assert(t =~= order);
            assert(buffers.difference(t.to_set()) =~= Set::empty());
        }
    }
}

/// Creating buffers and then destroying the pool defers the unmap; the
/// buffers then go in any order, and the pool is unmapped exactly when the
/// last of them is destroyed, never before.
pub proof fn lemma_deferred_unmap_exactly_once(buffers: Set<u32>, order: Seq<u32>)
    requires
        order.no_duplicates(),
        order.to_set() == buffers,
        order.len() > 0,
    ensures
        destroy_state(MapState::Mmapped, buffers) == MapState::DestroyWhenBuffersEmpty,
        forall|k: int| 0 <= k < order.len() ==>
            #[trigger] after_buffer_destroys(MapState::DestroyWhenBuffersEmpty, buffers, order.take(k)).0
                == MapState::DestroyWhenBuffersEmpty,
        after_buffer_destroys(MapState::DestroyWhenBuffersEmpty, buffers, order).0 == MapState::Destroyed,
        after_buffer_destroys(MapState::DestroyWhenBuffersEmpty, buffers, order).1.is_empty(),
{
    assert(buffers.contains(order[0]));
    assert forall|k: int| 0 <= k < order.len() implies
        #[trigger] after_buffer_destroys(MapState::DestroyWhenBuffersEmpty, buffers, order.take(k)).0
            == MapState::DestroyWhenBuffersEmpty by {
        lemma_prefix_destroys(buffers, order, k);
    }
    lemma_prefix_destroys(buffers, order, order.len() as int);
    assert(order.take(order.len() as int) =~= order);
}

/// Destroying a pool with no outstanding buffer unmaps it at once, whatever
/// state it was in: it never waits for buffers.
pub proof fn lemma_destroy_without_buffers_unmaps(state: MapState, buffers: Set<u32>)
    requires
        buffers.is_empty(),
    ensures
        destroy_state(state, buffers) == MapState::Destroyed,
        destroy_state(state, buffers) != MapState::DestroyWhenBuffersEmpty,
{
}

} // verus!
