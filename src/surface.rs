use vstd::prelude::*;
use crate::protocol::ProtocolError;

verus! {

/// A damage rectangle: x, y, width, height.
pub type Rect = (i32, i32, i32, i32);

/// The terminal role of a surface, assigned at most once.
#[derive(Clone, Copy, Debug, PartialEq, Eq, Structural)]
pub enum SurfaceRole {
    XdgToplevel { toplevel_id: u32 },
    XdgPopup { popup_id: u32 },
}

/// State staged by attach and damage, applied by commit.
pub struct PendingState {
    pub buffer: Option<u32>,
    pub damage: Vec<Rect>,
    pub offset: (i32, i32),
}

/// State made current by the last commit.
#[derive(Clone, Copy, Debug)]
pub struct CurrentState {
    pub buffer: Option<u32>,
    pub offset: (i32, i32),
}

/// A `wl_surface`: double-buffered content plus a one-shot role.
pub struct WlSurface {
    pub pending: PendingState,
    pub current: CurrentState,
    pub role: Option<SurfaceRole>,
    /// The `xdg_surface` object associated with this surface, if any.
    pub xdg_surface: Option<u32>,
    /// Frame callbacks registered since the last scheduler tick.
    pub frame_callbacks: Vec<u32>,
}

/// The mathematical model of a surface.
pub struct SurfaceView {
    pub pending_buffer: Option<u32>,
    pub pending_damage: Seq<Rect>,
    pub pending_offset: (i32, i32),
    pub current_buffer: Option<u32>,
    pub current_offset: (i32, i32),
    pub role: Option<SurfaceRole>,
    pub xdg_surface: Option<u32>,
    pub frame_callbacks: Seq<u32>,
}

impl View for WlSurface {
    type V = SurfaceView;

    open spec fn view(&self) -> SurfaceView {
        SurfaceView {
            pending_buffer: self.pending.buffer,
            pending_damage: self.pending.damage@,
            pending_offset: self.pending.offset,
            current_buffer: self.current.buffer,
            current_offset: self.current.offset,
            role: self.role,
            xdg_surface: self.xdg_surface,
            frame_callbacks: self.frame_callbacks@,
        }
    }
}

pub open spec fn pending_is_default(s: SurfaceView) -> bool {
    &&& s.pending_buffer is None
    &&& s.pending_damage.len() == 0
    &&& s.pending_offset == (0i32, 0i32)
}

pub open spec fn new_surface_spec() -> SurfaceView {
    SurfaceView {
        pending_buffer: None,
        pending_damage: Seq::empty(),
        pending_offset: (0i32, 0i32),
        current_buffer: None,
        current_offset: (0i32, 0i32),
        role: None,
        xdg_surface: None,
        frame_callbacks: Seq::empty(),
    }
}

pub open spec fn attach_spec(s: SurfaceView, buffer_id: u32, x: i32, y: i32) -> SurfaceView {
    SurfaceView { pending_buffer: Some(buffer_id), pending_offset: (x, y), ..s }
}

pub open spec fn damage_spec(s: SurfaceView, r: Rect) -> SurfaceView {
    SurfaceView { pending_damage: s.pending_damage.push(r), ..s }
}

/// Damage applied rectangle by rectangle, in order.
pub open spec fn damages_spec(s: SurfaceView, rects: Seq<Rect>) -> SurfaceView
    decreases rects.len(),
{
    if rects.len() == 0 {
        s
    } else {
        damage_spec(damages_spec(s, rects.drop_last()), rects.last())
    }
}

pub open spec fn commit_spec(s: SurfaceView) -> SurfaceView {
    SurfaceView {
        pending_buffer: None,
        pending_damage: Seq::empty(),
        pending_offset: (0i32, 0i32),
        current_buffer: s.pending_buffer,
        current_offset: s.pending_offset,
        ..s
    }
}

pub open spec fn frame_spec(s: SurfaceView, callback_id: u32) -> SurfaceView {
    SurfaceView { frame_callbacks: s.frame_callbacks.push(callback_id), ..s }
}

/// The outcome of a role request: the new model and the result.
pub open spec fn set_role_spec(s: SurfaceView, role: SurfaceRole) -> (SurfaceView, Result<(), ProtocolError>) {
    if s.role is None {
        (SurfaceView { role: Some(role), ..s }, Ok(()))
    } else {
        (s, Err(ProtocolError::RoleConflict))
    }
}

pub open spec fn role_name_spec(role: Option<SurfaceRole>) -> Option<Seq<char>> {
    match role {
        Some(SurfaceRole::XdgToplevel { .. }) => Some("xdg_toplevel"@),
        Some(SurfaceRole::XdgPopup { .. }) => Some("xdg_popup"@),
        None => None,
    }
}

impl PendingState {
    pub fn new() -> (r: Self)
        ensures
            r.buffer is None,
            r.damage@.len() == 0,
            r.offset == (0i32, 0i32),
    {
        PendingState { buffer: None, damage: Vec::new(), offset: (0, 0) }
    }
}

impl WlSurface {
    pub fn new() -> (r: Self)
        ensures
            r@ == new_surface_spec(),
    {
        let r = WlSurface {
            pending: PendingState::new(),
            current: CurrentState { buffer: None, offset: (0, 0) },
            role: None,
            xdg_surface: None,
            frame_callbacks: Vec::new(),
        };
        assert(r@.pending_damage =~= Seq::empty());
        assert(r@.frame_callbacks =~= Seq::empty());
        r
    }

    /// Assigns the terminal role; a surface that already has one refuses and stays as it was.
    pub fn set_role(&mut self, role: SurfaceRole) -> (r: Result<(), ProtocolError>)
        ensures
            (final(self)@, r) == set_role_spec(old(self)@, role),
    {
        if self.role.is_none() {
            self.role = Some(role);
            Ok(())
        } else {
            Err(ProtocolError::RoleConflict)
        }
    }

    pub fn get_role_name(&self) -> (r: Option<String>)
        ensures
            r matches Some(n) ==> role_name_spec(self.role) == Some(n@),
            r is None <==> self.role is None,
    {
        match self.role {
            Some(SurfaceRole::XdgToplevel { .. }) => Some("xdg_toplevel".to_string()),
            Some(SurfaceRole::XdgPopup { .. }) => Some("xdg_popup".to_string()),
            None => None,
        }
    }

    pub fn handle_attach(&mut self, buffer_id: u32, x: i32, y: i32)
        ensures
            final(self)@ == attach_spec(old(self)@, buffer_id, x, y),
    {
        self.pending.buffer = Some(buffer_id);
        self.pending.offset = (x, y);
    }

    pub fn handle_damage(&mut self, x: i32, y: i32, width: i32, height: i32)
        ensures
            final(self)@ == damage_spec(old(self)@, (x, y, width, height)),
    {
        self.pending.damage.push((x, y, width, height));
    }

    pub fn handle_frame(&mut self, callback_id: u32)
        ensures
            final(self)@ == frame_spec(old(self)@, callback_id),
    {
        self.frame_callbacks.push(callback_id);
    }

    pub fn handle_commit(&mut self)
        ensures
            final(self)@ == commit_spec(old(self)@),
    {
        self.current.buffer = self.pending.buffer;
        self.current.offset = self.pending.offset;
        self.pending = PendingState::new();
        assert(self@.pending_damage =~= Seq::empty());
    }

    /// Hands out the registered frame callbacks and forgets them.
    pub fn take_frame_callbacks(&mut self) -> (r: Vec<u32>)
        ensures
            r@ == old(self)@.frame_callbacks,
            final(self)@ == (SurfaceView { frame_callbacks: Seq::empty(), ..old(self)@ }),
    {
        let mut taken: Vec<u32> = Vec::new();
        std::mem::swap(&mut taken, &mut self.frame_callbacks);
        assert(self@.frame_callbacks =~= Seq::empty());
        taken
    }
}

proof fn lemma_damages_keep_rest(s: SurfaceView, rects: Seq<Rect>)
    ensures
        damages_spec(s, rects) == (SurfaceView { pending_damage: s.pending_damage + rects, ..s }),
    decreases rects.len(),
{
    if rects.len() == 0 {
        assert(s.pending_damage + rects =~= s.pending_damage);
    } else {
        lemma_damages_keep_rest(s, rects.drop_last());
        assert(s.pending_damage + rects =~= (s.pending_damage + rects.drop_last()).push(rects.last()));
    }
}

/// After an attach, any number of damage requests and a commit, the current
/// buffer and offset are the attached ones and the pending state is back to
/// its defaults.
pub proof fn lemma_commit_applies_last_attach(s: SurfaceView, buffer_id: u32, x: i32, y: i32, rects: Seq<Rect>)
    ensures
        commit_spec(damages_spec(attach_spec(s, buffer_id, x, y), rects)).current_buffer == Some(buffer_id),
        commit_spec(damages_spec(attach_spec(s, buffer_id, x, y), rects)).current_offset == (x, y),
        pending_is_default(commit_spec(damages_spec(attach_spec(s, buffer_id, x, y), rects))),
{
    lemma_damages_keep_rest(attach_spec(s, buffer_id, x, y), rects);
}

/// Once a surface has a role, every further role request fails with a role
/// conflict and leaves the surface, its pending and current state included,
/// exactly as it was.
pub proof fn lemma_second_role_rejected(s: SurfaceView, first: SurfaceRole, second: SurfaceRole)
    requires
        s.role is None,
    ensures
        set_role_spec(s, first).1 == Ok::<(), ProtocolError>(()),
        set_role_spec(set_role_spec(s, first).0, second)
            == (set_role_spec(s, first).0, Err::<(), ProtocolError>(ProtocolError::RoleConflict)),
        set_role_spec(s, first).0.current_buffer == s.current_buffer,
        set_role_spec(s, first).0.pending_buffer == s.pending_buffer,
        set_role_spec(s, first).0.pending_damage == s.pending_damage,
{
}

} // verus!
