use vstd::prelude::*;
use crate::protocol::Event;

verus! {

/// Seat capability bit: a pointer is available.
pub const CAPABILITY_POINTER: u32 = 1;
/// Seat capability bit: a keyboard is available.
pub const CAPABILITY_KEYBOARD: u32 = 2;
/// Keymap format: no keymap.
pub const KEYMAP_FORMAT_NO_KEYMAP: u32 = 0;
/// Keymap format: an XKB text keymap.
pub const KEYMAP_FORMAT_XKB_V1: u32 = 1;
/// Size in bytes of the bundled keymap.
pub const KEYMAP_SIZE: u32 = 2429;

/// The `wl_seat` global, advertising a pointer and a keyboard.
pub struct WlSeat;

impl WlSeat {
    pub fn new() -> (r: Self) {
        WlSeat
    }

    /// The capabilities event sent to a client that binds the seat.
    pub fn on_bind(&self, self_id: u32) -> (r: Event)
        ensures
            r == (Event::Capabilities { seat_id: self_id, capabilities: 3 }),
    {
        let capabilities = CAPABILITY_POINTER | CAPABILITY_KEYBOARD;
        assert(CAPABILITY_POINTER | CAPABILITY_KEYBOARD == 3u32) by (bit_vector);
        Event::Capabilities { seat_id: self_id, capabilities }
    }
}

/// A `wl_keyboard`, with the keymap resource it hands to its client.
pub struct WlKeyboard {
    pub keymap_fd: i32,
    pub keymap_size: u32,
}

impl WlKeyboard {
    /// A keyboard whose keymap descriptor is not yet opened.
    pub fn new() -> (r: Self)
        ensures
            r.keymap_fd == -1,
            r.keymap_size == KEYMAP_SIZE,
    {
        WlKeyboard { keymap_fd: -1, keymap_size: KEYMAP_SIZE }
    }

    /// The keymap event that must reach the client as soon as the keyboard exists.
    pub fn on_get_keyboard(&self, self_id: u32) -> (r: Event)
        ensures
            r == (Event::Keymap {
                keyboard_id: self_id,
                format: KEYMAP_FORMAT_XKB_V1,
                fd: self.keymap_fd,
                size: self.keymap_size,
            }),
    {
        Event::Keymap {
            keyboard_id: self_id,
            format: KEYMAP_FORMAT_XKB_V1,
            fd: self.keymap_fd,
            size: self.keymap_size,
        }
    }
}

/// Whether `client_id` has an entry in the cursor list.
pub open spec fn has_cursor(s: Seq<(u32, u32)>, client_id: u32) -> bool {
    exists|i: int| 0 <= i < s.len() && s[i].0 == client_id
}

/// The cursor list as a map from client to cursor surface.
pub open spec fn cursor_map(s: Seq<(u32, u32)>) -> Map<u32, u32> {
    Map::new(
        |c: u32| has_cursor(s, c),
        |c: u32| s[choose|i: int| 0 <= i < s.len() && s[i].0 == c].1,
    )
}

pub open spec fn keys_unique(s: Seq<(u32, u32)>) -> bool {
    forall|i: int, j: int| 0 <= i < s.len() && 0 <= j < s.len() && i != j ==> s[i].0 != s[j].0
}

/// A `wl_pointer`: the cursor surface of each client and the pointer position.
pub struct WlPointer {
    pub cursor_surface_per_client: Vec<(u32, u32)>,
    /// Pointer position in 24.8 fixed point.
    pub x: i32,
    pub y: i32,
}

impl WlPointer {
    pub open spec fn wf(&self) -> bool {
        keys_unique(self.cursor_surface_per_client@)
    }

    pub open spec fn cursors(&self) -> Map<u32, u32> {
        cursor_map(self.cursor_surface_per_client@)
    }

    pub fn new() -> (r: Self)
        ensures
            r.wf(),
            r.cursors() == Map::<u32, u32>::empty(),
            r.x == 0 && r.y == 0,
    {
        let r = WlPointer { cursor_surface_per_client: Vec::new(), x: 0, y: 0 };
        assert(r.cursors() =~= Map::<u32, u32>::empty());
        r
    }

    /// Records `surface_id` as the cursor surface of `client_id`.
    pub fn handle_set_cursor(&mut self, client_id: u32, surface_id: u32)
        requires
            old(self).wf(),
        ensures
            final(self).wf(),
            final(self).cursors() == old(self).cursors().insert(client_id, surface_id),
            final(self).x == old(self).x && final(self).y == old(self).y,
    {
        let ghost s = self.cursor_surface_per_client@;
        let mut i: usize = 0;
        while i < self.cursor_surface_per_client.len()
            invariant
                0 <= i <= s.len(),
                self.cursor_surface_per_client@ == s,
                s == old(self).cursor_surface_per_client@,
                keys_unique(s),
                self.x == old(self).x && self.y == old(self).y,
                forall|k: int| 0 <= k < i ==> s[k].0 != client_id,
            decreases s.len() - i,
        {
            if self.cursor_surface_per_client[i].0 == client_id {
                self.cursor_surface_per_client.set(i, (client_id, surface_id));
                let ghost t = self.cursor_surface_per_client@;
                assert(t == s.update(i as int, (client_id, surface_id)));
                assert forall|c: u32| #[trigger] has_cursor(t, c) == has_cursor(s, c) by {
                    if has_cursor(s, c) {
                        let k = choose|k: int| 0 <= k < s.len() && s[k].0 == c;
                        assert(t[k].0 == c);
                    }
                    if has_cursor(t, c) {
                        let k = choose|k: int| 0 <= k < t.len() && t[k].0 == c;
                        assert(s[k].0 == c);
                    }
                }
                assert forall|c: u32| has_cursor(t, c) implies
                    #[trigger] cursor_map(t)[c] == cursor_map(s).insert(client_id, surface_id)[c] by {
                    let k = choose|k: int| 0 <= k < t.len() && t[k].0 == c;
                    if c != client_id {
                        let k2 = choose|k2: int| 0 <= k2 < s.len() && s[k2].0 == c;
                        assert(k == k2);
                    } else {
                        assert(k == i);
                    }
                }
                assert(cursor_map(t) =~= cursor_map(s).insert(client_id, surface_id));
                return;
            }
            i = i + 1;
        }
        self.cursor_surface_per_client.push((client_id, surface_id));
        let ghost t = self.cursor_surface_per_client@;
        assert(t == s.push((client_id, surface_id)));
        assert forall|c: u32| #[trigger] has_cursor(t, c) == (has_cursor(s, c) || c == client_id) by {
            if has_cursor(s, c) {
                let k = choose|k: int| 0 <= k < s.len() && s[k].0 == c;
                assert(t[k].0 == c);
            }
            if c == client_id {
                assert(t[s.len() as int].0 == c);
            }
            if has_cursor(t, c) && c != client_id {
                let k = choose|k: int| 0 <= k < t.len() && t[k].0 == c;
                assert(s[k].0 == c);
            }
        }
        assert forall|c: u32| has_cursor(t, c) implies
            #[trigger] cursor_map(t)[c] == cursor_map(s).insert(client_id, surface_id)[c] by {
            let k = choose|k: int| 0 <= k < t.len() && t[k].0 == c;
            if c != client_id {
                let k2 = choose|k2: int| 0 <= k2 < s.len() && s[k2].0 == c;
                assert(t[k2].0 == c);
                assert(k == k2);
            } else {
                assert(k == s.len());
            }
        }
        assert(cursor_map(t) =~= cursor_map(s).insert(client_id, surface_id));
    }

    /// The cursor surface that `client_id` set, if any.
    pub fn cursor_surface(&self, client_id: u32) -> (r: Option<u32>)
        requires
            self.wf(),
        ensures
            r == (if self.cursors().contains_key(client_id) { Some(self.cursors()[client_id]) } else { None }),
    {
        let mut i: usize = 0;
        while i < self.cursor_surface_per_client.len()
            invariant
                0 <= i <= self.cursor_surface_per_client@.len(),
                self.wf(),
                forall|k: int| 0 <= k < i ==> self.cursor_surface_per_client@[k].0 != client_id,
            decreases self.cursor_surface_per_client@.len() - i,
        {
            if self.cursor_surface_per_client[i].0 == client_id {
                let ghost s = self.cursor_surface_per_client@;
                assert(has_cursor(s, client_id));
                let k = Ghost(choose|k: int| 0 <= k < s.len() && s[k].0 == client_id);
                assert(k@ == i as int);
                return Some(self.cursor_surface_per_client[i].1);
            }
            i = i + 1;
        }
        assert(!has_cursor(self.cursor_surface_per_client@, client_id));
        None
    }
}

} // verus!
