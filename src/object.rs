use vstd::prelude::*;
use crate::display::{WlCompositor, WlDisplay, WlRegion, WlRegistry};
use crate::seat::{WlKeyboard, WlPointer, WlSeat};
use crate::shell::{XdgPopup, XdgPositioner, XdgSurface, XdgToplevel, XdgWmBase};
use crate::shm::{WlBuffer, WlShm, WlShmPool};
use crate::surface::WlSurface;

verus! {

/// Every kind of protocol object a session can hold.
pub enum ProtocolObject {
    Display(WlDisplay),
    Registry(WlRegistry),
    Compositor(WlCompositor),
    Region(WlRegion),
    Surface(WlSurface),
    Shm(WlShm),
    ShmPool(WlShmPool),
    Buffer(WlBuffer),
    Seat(WlSeat),
    Keyboard(WlKeyboard),
    Pointer(WlPointer),
    WmBase(XdgWmBase),
    XdgSurface(XdgSurface),
    XdgToplevel(XdgToplevel),
    XdgPopup(XdgPopup),
    Positioner(XdgPositioner),
}

/// The variant of a protocol object, without its state.
#[derive(Clone, Copy, Debug, PartialEq, Eq, Structural)]
pub enum ObjectKind {
    Display,
    Registry,
    Compositor,
    Region,
    Surface,
    Shm,
    ShmPool,
    Buffer,
    Seat,
    Keyboard,
    Pointer,
    WmBase,
    XdgSurface,
    XdgToplevel,
    XdgPopup,
    Positioner,
}

pub open spec fn kind_of(o: ProtocolObject) -> ObjectKind {
    match o {
        ProtocolObject::Display(_) => ObjectKind::Display,
        ProtocolObject::Registry(_) => ObjectKind::Registry,
        ProtocolObject::Compositor(_) => ObjectKind::Compositor,
        ProtocolObject::Region(_) => ObjectKind::Region,
        ProtocolObject::Surface(_) => ObjectKind::Surface,
        ProtocolObject::Shm(_) => ObjectKind::Shm,
        ProtocolObject::ShmPool(_) => ObjectKind::ShmPool,
        ProtocolObject::Buffer(_) => ObjectKind::Buffer,
        ProtocolObject::Seat(_) => ObjectKind::Seat,
        ProtocolObject::Keyboard(_) => ObjectKind::Keyboard,
        ProtocolObject::Pointer(_) => ObjectKind::Pointer,
        ProtocolObject::WmBase(_) => ObjectKind::WmBase,
        ProtocolObject::XdgSurface(_) => ObjectKind::XdgSurface,
        ProtocolObject::XdgToplevel(_) => ObjectKind::XdgToplevel,
        ProtocolObject::XdgPopup(_) => ObjectKind::XdgPopup,
        ProtocolObject::Positioner(_) => ObjectKind::Positioner,
    }
}

impl ProtocolObject {
    pub fn kind(&self) -> (r: ObjectKind)
        ensures
            r == kind_of(*self),
    {
        match self {
            ProtocolObject::Display(_) => ObjectKind::Display,
            ProtocolObject::Registry(_) => ObjectKind::Registry,
            ProtocolObject::Compositor(_) => ObjectKind::Compositor,
            ProtocolObject::Region(_) => ObjectKind::Region,
            ProtocolObject::Surface(_) => ObjectKind::Surface,
            ProtocolObject::Shm(_) => ObjectKind::Shm,
            ProtocolObject::ShmPool(_) => ObjectKind::ShmPool,
            ProtocolObject::Buffer(_) => ObjectKind::Buffer,
            ProtocolObject::Seat(_) => ObjectKind::Seat,
            ProtocolObject::Keyboard(_) => ObjectKind::Keyboard,
            ProtocolObject::Pointer(_) => ObjectKind::Pointer,
            ProtocolObject::WmBase(_) => ObjectKind::WmBase,
            ProtocolObject::XdgSurface(_) => ObjectKind::XdgSurface,
            ProtocolObject::XdgToplevel(_) => ObjectKind::XdgToplevel,
            ProtocolObject::XdgPopup(_) => ObjectKind::XdgPopup,
            ProtocolObject::Positioner(_) => ObjectKind::Positioner,
        }
    }
}

/// The invariant of the objects that have one.
pub open spec fn object_wf(o: ProtocolObject) -> bool {
    match o {
        ProtocolObject::ShmPool(p) => p.wf(),
        ProtocolObject::Pointer(p) => p.wf(),
        _ => true,
    }
}

/// One slot of a session's object table.
pub struct ObjectEntry {
    pub id: u32,
    pub object: ProtocolObject,
}

pub open spec fn unique_ids(s: Seq<ObjectEntry>) -> bool {
    forall|i: int, j: int| 0 <= i < s.len() && 0 <= j < s.len() && i != j ==> s[i].id != s[j].id
}

pub open spec fn contains_id(s: Seq<ObjectEntry>, id: u32) -> bool {
    exists|i: int| 0 <= i < s.len() && s[i].id == id
}

pub open spec fn index_of(s: Seq<ObjectEntry>, id: u32) -> int {
    choose|i: int| 0 <= i < s.len() && s[i].id == id
}

/// The table as a map from object id to object.
pub open spec fn table_of(s: Seq<ObjectEntry>) -> Map<u32, ProtocolObject> {
    Map::new(|id: u32| contains_id(s, id), |id: u32| s[index_of(s, id)].object)
}

pub proof fn lemma_index_of(s: Seq<ObjectEntry>, i: int)
    requires
        unique_ids(s),
        0 <= i < s.len(),
    ensures
        contains_id(s, s[i].id),
        index_of(s, s[i].id) == i,
        table_of(s).contains_key(s[i].id),
        table_of(s)[s[i].id] == s[i].object,
{
    assert(contains_id(s, s[i].id));
}

pub proof fn lemma_update(s: Seq<ObjectEntry>, i: int, o: ProtocolObject)
    requires
        unique_ids(s),
        0 <= i < s.len(),
    ensures
        unique_ids(s.update(i, ObjectEntry { id: s[i].id, object: o })),
        table_of(s.update(i, ObjectEntry { id: s[i].id, object: o })) == table_of(s).insert(s[i].id, o),
{
    let t = s.update(i, ObjectEntry { id: s[i].id, object: o });
    assert forall|id: u32| #[trigger] contains_id(t, id) == contains_id(s, id) by {
        if contains_id(s, id) {
            let k = index_of(s, id);
            assert(t[k].id == id);
        }
        if contains_id(t, id) {
            let k = index_of(t, id);
            assert(s[k].id == id);
        }
    }
    assert forall|id: u32| contains_id(t, id) implies #[trigger] table_of(t)[id] == table_of(s).insert(s[i].id, o)[id] by {
        let k = index_of(t, id);
        if id != s[i].id {
            let k2 = index_of(s, id);
            assert(t[k2].id == id);
            assert(k == k2);
        } else {
            assert(k == i);
        }
    }
    assert(table_of(t) =~= table_of(s).insert(s[i].id, o));
}

pub proof fn lemma_push(s: Seq<ObjectEntry>, e: ObjectEntry)
    requires
        unique_ids(s),
        !contains_id(s, e.id),
    ensures
        unique_ids(s.push(e)),
        table_of(s.push(e)) == table_of(s).insert(e.id, e.object),
{
    let t = s.push(e);
    assert forall|id: u32| #[trigger] contains_id(t, id) == (contains_id(s, id) || id == e.id) by {
        if contains_id(s, id) {
            let k = index_of(s, id);
            assert(t[k].id == id);
        }
        if id == e.id {
            assert(t[s.len() as int].id == id);
        }
        if contains_id(t, id) && id != e.id {
            let k = index_of(t, id);
            assert(s[k].id == id);
        }
    }
    assert forall|id: u32| contains_id(t, id) implies #[trigger] table_of(t)[id] == table_of(s).insert(e.id, e.object)[id] by {
        let k = index_of(t, id);
        if id != e.id {
            let k2 = index_of(s, id);
            assert(t[k2].id == id);
            assert(k == k2);
        } else {
            assert(k == s.len());
        }
    }
    assert(table_of(t) =~= table_of(s).insert(e.id, e.object));
}

pub proof fn lemma_remove(s: Seq<ObjectEntry>, i: int)
    requires
        unique_ids(s),
        0 <= i < s.len(),
    ensures
        unique_ids(s.remove(i)),
        table_of(s.remove(i)) == table_of(s).remove(s[i].id),
{
    let t = s.remove(i);
    assert forall|a: int, b: int| 0 <= a < t.len() && 0 <= b < t.len() && a != b implies t[a].id != t[b].id by {
        let a2 = if a < i { a } else { a + 1 };
        let b2 = if b < i { b } else { b + 1 };
        assert(t[a] == s[a2]);
        assert(t[b] == s[b2]);
    }
    assert forall|id: u32| #[trigger] contains_id(t, id) == (contains_id(s, id) && id != s[i].id) by {
        if contains_id(s, id) && id != s[i].id {
            let k = index_of(s, id);
            assert(k != i);
            if k < i {
                assert(t[k].id == id);
            } else {
                assert(t[k - 1].id == id);
            }
        }
        if contains_id(t, id) {
            let k = index_of(t, id);
            if k < i {
                assert(s[k].id == id);
            } else {
                assert(s[k + 1].id == id);
            }
        }
    }
    assert forall|id: u32| contains_id(t, id) implies #[trigger] table_of(t)[id] == table_of(s).remove(s[i].id)[id] by {
        let k = index_of(t, id);
        let k2 = index_of(s, id);
        if k < i {
            assert(s[k].id == id);
            assert(k == k2);
        } else {
            assert(s[k + 1].id == id);
            assert(k + 1 == k2);
        }
    }
    assert(table_of(t) =~= table_of(s).remove(s[i].id));
}

/// The five globals sit at their fixed ids.
pub open spec fn globals_in_place(t: Map<u32, ProtocolObject>) -> bool {
    &&& t.contains_key(1u32) && kind_of(t[1u32]) == ObjectKind::Display
    &&& t.contains_key(2u32) && kind_of(t[2u32]) == ObjectKind::Compositor
    &&& t.contains_key(3u32) && kind_of(t[3u32]) == ObjectKind::Shm
    &&& t.contains_key(4u32) && kind_of(t[4u32]) == ObjectKind::WmBase
    &&& t.contains_key(5u32) && kind_of(t[5u32]) == ObjectKind::Seat
}

/// The invariant of a session's object table.
pub open spec fn table_wf(s: Seq<ObjectEntry>) -> bool {
    &&& unique_ids(s)
    &&& forall|i: int| 0 <= i < s.len() ==> #[trigger] object_wf(s[i].object) && s[i].id > 0
    &&& globals_in_place(table_of(s))
}

/// Replacing an object by a well-formed one of the same kind keeps the table well formed.
pub proof fn lemma_update_wf(s: Seq<ObjectEntry>, i: int, o: ProtocolObject)
    requires
        table_wf(s),
        0 <= i < s.len(),
        object_wf(o),
        kind_of(o) == kind_of(s[i].object),
    ensures
        table_wf(s.update(i, ObjectEntry { id: s[i].id, object: o })),
        table_of(s.update(i, ObjectEntry { id: s[i].id, object: o })) == table_of(s).insert(s[i].id, o),
{
    lemma_index_of(s, i);
    lemma_update(s, i, o);
    let t = s.update(i, ObjectEntry { id: s[i].id, object: o });
    assert forall|k: int| 0 <= k < t.len() implies #[trigger] object_wf(t[k].object) && t[k].id > 0 by {
        if k != i {
            assert(t[k] == s[k]);
            assert(object_wf(s[k].object));
        } else {
            assert(object_wf(s[i].object));
        }
    }
}

/// Adding a well-formed object under a fresh id above the globals keeps the table well formed.
pub proof fn lemma_push_wf(s: Seq<ObjectEntry>, e: ObjectEntry)
    requires
        table_wf(s),
        !contains_id(s, e.id),
        e.id > 5,
        object_wf(e.object),
    ensures
        table_wf(s.push(e)),
        table_of(s.push(e)) == table_of(s).insert(e.id, e.object),
{
    lemma_push(s, e);
    let t = s.push(e);
    assert forall|k: int| 0 <= k < t.len() implies #[trigger] object_wf(t[k].object) && t[k].id > 0 by {
        if k < s.len() {
            assert(t[k] == s[k]);
            assert(object_wf(s[k].object));
        } else {
            assert(t[k] == e);
        }
    }
}

/// Removing an object that is not a global keeps the table well formed.
pub proof fn lemma_remove_wf(s: Seq<ObjectEntry>, i: int)
    requires
        table_wf(s),
        0 <= i < s.len(),
        s[i].id > 5,
    ensures
        table_wf(s.remove(i)),
        table_of(s.remove(i)) == table_of(s).remove(s[i].id),
{
    lemma_remove(s, i);
    let t = s.remove(i);
    assert forall|k: int| 0 <= k < t.len() implies #[trigger] object_wf(t[k].object) && t[k].id > 0 by {
        if k < i {
            assert(t[k] == s[k]);
            assert(object_wf(s[k].object));
        } else {
            assert(t[k] == s[k + 1]);
            assert(object_wf(s[k + 1].object));
        }
    }
}

} // verus!
