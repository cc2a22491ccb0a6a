use vstd::prelude::*;
use crate::client::{is_kind, WaylandClient};
use crate::handlers::fresh_id;
use crate::object::{kind_of, lemma_update_wf, ObjectKind, ProtocolObject};
use crate::protocol::{Event, ProtocolError, LAST_GLOBAL_ID, XDG_WM_BASE_ID};
use crate::shell::{XdgPopup, XdgSurface, XdgToplevel};
use crate::surface::{SurfaceRole, SurfaceView};

verus! {

/// A state-changing toplevel request.
pub enum ToplevelChange {
    SetTitle(String),
    SetAppId(String),
    SetMaxSize(i32, i32),
    SetMinSize(i32, i32),
    SetMaximized,
    UnsetMaximized,
    SetFullscreen,
    UnsetFullscreen,
}

pub open spec fn apply_change(a: XdgToplevel, c: ToplevelChange) -> XdgToplevel {
    match c {
        ToplevelChange::SetTitle(t) => XdgToplevel { title: Some(t), ..a },
        ToplevelChange::SetAppId(t) => XdgToplevel { app_id: Some(t), ..a },
        ToplevelChange::SetMaxSize(w, h) => XdgToplevel { max_size: (w, h), ..a },
        ToplevelChange::SetMinSize(w, h) => XdgToplevel { min_size: (w, h), ..a },
        ToplevelChange::SetMaximized => XdgToplevel { maximized: true, ..a },
        ToplevelChange::UnsetMaximized => XdgToplevel { maximized: false, ..a },
        ToplevelChange::SetFullscreen => XdgToplevel { fullscreen: true, ..a },
        ToplevelChange::UnsetFullscreen => XdgToplevel { fullscreen: false, ..a },
    }
}

/// Which error, if any, a request for a toplevel or popup role meets.
pub open spec fn shell_role_error(t: Map<u32, ProtocolObject>, xdg_id: u32, new_id: u32, last_serial: u32) -> Option<ProtocolError> {
    if !is_kind(t, xdg_id, ObjectKind::XdgSurface) {
        Some(ProtocolError::InvalidObjectReference)
    } else {
        match t[xdg_id] {
            ProtocolObject::XdgSurface(x) => if x.role_object is Some {
                Some(ProtocolError::RoleConflict)
            } else if !is_kind(t, x.surface_id, ObjectKind::Surface) {
                Some(ProtocolError::InvalidObjectReference)
            } else {
                match t[x.surface_id] {
                    ProtocolObject::Surface(s) => if s.role is Some {
                        Some(ProtocolError::RoleConflict)
                    } else if !fresh_id(t, new_id) {
                        Some(ProtocolError::InvalidObjectReference)
                    } else if last_serial == u32::MAX {
                        Some(ProtocolError::SerialsExhausted)
                    } else {
                        None
                    },
                    _ => None,
                }
            },
            _ => None,
        }
    }
}

pub open spec fn shell_role(toplevel: bool, new_id: u32) -> SurfaceRole {
    if toplevel {
        SurfaceRole::XdgToplevel { toplevel_id: new_id }
    } else {
        SurfaceRole::XdgPopup { popup_id: new_id }
    }
}

impl WaylandClient {
    /// The outcome of a toplevel or popup role request: the exact error, with
    /// nothing changed, or the role, the role object, the recorded serial and
    /// the queued configure events.
    pub open spec fn shell_role_outcome(
        &self,
        old_self: &WaylandClient,
        xdg_id: u32,
        new_id: u32,
        toplevel: bool,
        r: Result<(), ProtocolError>,
    ) -> bool {
        &&& (shell_role_error(old_self.table(), xdg_id, new_id, old_self.last_serial) matches Some(e) ==> {
            &&& r == Err::<(), ProtocolError>(e)
            &&& self.table() == old_self.table()
            &&& self.same_meta(old_self)
        })
        &&& (shell_role_error(old_self.table(), xdg_id, new_id, old_self.last_serial) is None ==> match old_self.table()[xdg_id] {
            ProtocolObject::XdgSurface(x) => match old_self.table()[x.surface_id] {
                ProtocolObject::Surface(s) => {
                    let serial = (old_self.last_serial + 1) as u32;
                    let t = self.table();
                    &&& r is Ok
                    &&& self.last_serial == serial
                    &&& t == old_self.table().insert(x.surface_id, t[x.surface_id]).insert(xdg_id, t[xdg_id]).insert(new_id, t[new_id])
                    &&& match t[x.surface_id] {
                        ProtocolObject::Surface(s2) => s2@ == (SurfaceView { role: Some(shell_role(toplevel, new_id)), ..s@ }),
                        _ => false,
                    }
                    &&& match t[xdg_id] {
                        ProtocolObject::XdgSurface(x2) => x2.surface_id == x.surface_id && x2.role_object == Some(new_id)
                            && x2.issued_serials@ == x.issued_serials@.push(serial) && x2.acked_serial == x.acked_serial,
                        _ => false,
                    }
                    &&& toplevel ==> match t[new_id] {
                        ProtocolObject::XdgToplevel(tl) => tl.xdg_surface_id == xdg_id && tl.title is None && tl.app_id is None
                            && !tl.maximized && !tl.fullscreen,
                        _ => false,
                    }
                    &&& !toplevel ==> t[new_id] == ProtocolObject::XdgPopup(XdgPopup { xdg_surface_id: xdg_id })
                    &&& toplevel ==> self.events@ == old_self.events@.push(
                        Event::ToplevelConfigure { toplevel_id: new_id, width: 0, height: 0, maximized: false, fullscreen: false },
                    ).push(Event::XdgConfigure { xdg_surface_id: xdg_id, serial })
                    &&& !toplevel ==> self.events@ == old_self.events@.push(
                        Event::XdgConfigure { xdg_surface_id: xdg_id, serial },
                    )
                },
                _ => false,
            },
            _ => false,
        })
    }

    /// The outcome of associating surface `surface_id` with xdg_surface `new_id`.
    pub open spec fn get_xdg_surface_outcome(
        &self,
        old_self: &WaylandClient,
        new_id: u32,
        surface_id: u32,
        r: Result<(), ProtocolError>,
    ) -> bool {
        &&& self.same_meta(old_self)
        &&& r is Err ==> self.table() == old_self.table()
        &&& (!is_kind(old_self.table(), surface_id, ObjectKind::Surface) ==> r == Err::<(), ProtocolError>(
            ProtocolError::InvalidObjectReference,
        ))
        &&& (is_kind(old_self.table(), surface_id, ObjectKind::Surface) ==> match old_self.table()[surface_id] {
            ProtocolObject::Surface(s) => {
                &&& (s.role is Some || s.xdg_surface is Some) ==> r == Err::<(), ProtocolError>(ProtocolError::RoleConflict)
                &&& (s.role is None && s.xdg_surface is None && !fresh_id(old_self.table(), new_id)) ==> r == Err::<
                    (),
                    ProtocolError,
                >(ProtocolError::InvalidObjectReference)
                &&& (s.role is None && s.xdg_surface is None && fresh_id(old_self.table(), new_id)) ==> {
                    &&& r is Ok
                    &&& self.table() == old_self.table().insert(surface_id, self.table()[surface_id]).insert(
                        new_id,
                        self.table()[new_id],
                    )
                    &&& match self.table()[surface_id] {
                        ProtocolObject::Surface(s2) => s2@ == (SurfaceView { xdg_surface: Some(new_id), ..s@ }),
                        _ => false,
                    }
                    &&& match self.table()[new_id] {
                        ProtocolObject::XdgSurface(x) => x.surface_id == surface_id && x.role_object is None
                            && x.issued_serials@.len() == 0 && x.acked_serial is None,
                        _ => false,
                    }
                }
            },
            _ => false,
        })
    }

    /// Associates a role-free surface with a new `xdg_surface`.
    pub fn get_xdg_surface(&mut self, new_id: u32, surface_id: u32) -> (r: Result<(), ProtocolError>)
        requires
            old(self).wf(),
        ensures
            final(self).wf(),
            final(self).get_xdg_surface_outcome(old(self), new_id, surface_id, r),
    {
        let i = match self.find(surface_id) {
            None => return Err(ProtocolError::InvalidObjectReference),
            Some(i) => i,
        };
        let taken = match &self.objects[i].object {
            ProtocolObject::Surface(s) => s.role.is_some() || s.xdg_surface.is_some(),
            _ => return Err(ProtocolError::InvalidObjectReference),
        };
        if taken {
            return Err(ProtocolError::RoleConflict);
        }
        if new_id <= LAST_GLOBAL_ID || self.find(new_id).is_some() {
            return Err(ProtocolError::InvalidObjectReference);
        }
        let ghost s = self.objects@;
        match &mut self.objects[i].object {
            ProtocolObject::Surface(surface) => {
                surface.xdg_surface = Some(new_id);
            },
            _ => {},
        }
        proof {
            lemma_update_wf(s, i as int, self.objects@[i as int].object);
        }
        self.add_object(new_id, ProtocolObject::XdgSurface(XdgSurface::new(surface_id)))
    }

    /// Gives the surface behind an `xdg_surface` its terminal role, creates the
    /// role object and queues a configure event with a fresh serial.
    fn assign_shell_role(&mut self, xdg_id: u32, new_id: u32, toplevel: bool) -> (r: Result<(), ProtocolError>)
        requires
            old(self).wf(),
        ensures
            final(self).wf(),
            final(self).id == old(self).id,
            final(self).client_socket_fd == old(self).client_socket_fd,
            final(self).shell_role_outcome(old(self), xdg_id, new_id, toplevel, r),
    {
        let i = match self.find(xdg_id) {
            None => return Err(ProtocolError::InvalidObjectReference),
            Some(i) => i,
        };
        let (surface_id, has_role_object) = match &self.objects[i].object {
            ProtocolObject::XdgSurface(x) => (x.surface_id, x.role_object.is_some()),
            _ => return Err(ProtocolError::InvalidObjectReference),
        };
        if has_role_object {
            return Err(ProtocolError::RoleConflict);
        }
        let j = match self.find(surface_id) {
            None => return Err(ProtocolError::InvalidObjectReference),
            Some(j) => j,
        };
        let has_role = match &self.objects[j].object {
            ProtocolObject::Surface(s) => s.role.is_some(),
            _ => return Err(ProtocolError::InvalidObjectReference),
        };
        if has_role {
            return Err(ProtocolError::RoleConflict);
        }
        if new_id <= LAST_GLOBAL_ID || self.find(new_id).is_some() {
            return Err(ProtocolError::InvalidObjectReference);
        }
        if self.last_serial == u32::MAX {
            return Err(ProtocolError::SerialsExhausted);
        }
        let serial = self.next_serial();
        let role = if toplevel {
            SurfaceRole::XdgToplevel { toplevel_id: new_id }
        } else {
            SurfaceRole::XdgPopup { popup_id: new_id }
        };
        let ghost s0 = self.objects@;
        match &mut self.objects[j].object {
            ProtocolObject::Surface(surface) => {
                let _ = surface.set_role(role);
            },
            _ => {},
        }
        proof {
            lemma_update_wf(s0, j as int, self.objects@[j as int].object);
        }
        let ghost s1 = self.objects@;
        match &mut self.objects[i].object {
            ProtocolObject::XdgSurface(x) => {
                x.role_object = Some(new_id);
                x.record_configure(serial);
            },
            _ => {},
        }
        proof {
            lemma_update_wf(s1, i as int, self.objects@[i as int].object);
        }
        if toplevel {
            let tl = XdgToplevel::new(xdg_id);
            let configure = tl.configure_event(new_id);
            let _ = self.add_object(new_id, ProtocolObject::XdgToplevel(tl));
            self.events.push(configure);
        } else {
            let _ = self.add_object(new_id, ProtocolObject::XdgPopup(XdgPopup { xdg_surface_id: xdg_id }));
        }
        self.events.push(Event::XdgConfigure { xdg_surface_id: xdg_id, serial });
        Ok(())
    }

    /// Makes the surface behind `xdg_id` a toplevel window.
    pub fn get_toplevel(&mut self, xdg_id: u32, new_id: u32) -> (r: Result<(), ProtocolError>)
        requires
            old(self).wf(),
        ensures
            final(self).wf(),
            final(self).id == old(self).id,
            final(self).client_socket_fd == old(self).client_socket_fd,
            final(self).shell_role_outcome(old(self), xdg_id, new_id, true, r),
    {
        self.assign_shell_role(xdg_id, new_id, true)
    }

    /// Makes the surface behind `xdg_id` a popup.
    pub fn get_popup(&mut self, xdg_id: u32, new_id: u32) -> (r: Result<(), ProtocolError>)
        requires
            old(self).wf(),
        ensures
            final(self).wf(),
            final(self).id == old(self).id,
            final(self).client_socket_fd == old(self).client_socket_fd,
            final(self).shell_role_outcome(old(self), xdg_id, new_id, false, r),
    {
        self.assign_shell_role(xdg_id, new_id, false)
    }
}

impl WaylandClient {
    /// The outcome of acknowledging `serial` on xdg_surface `xdg_id`.
    pub open spec fn ack_configure_outcome(
        &self,
        old_self: &WaylandClient,
        xdg_id: u32,
        serial: u32,
        r: Result<(), ProtocolError>,
    ) -> bool {
        &&& self.same_meta(old_self)
        &&& (!is_kind(old_self.table(), xdg_id, ObjectKind::XdgSurface) ==> r == Err::<(), ProtocolError>(
            ProtocolError::InvalidObjectReference,
        ) && self.table() == old_self.table())
        &&& (is_kind(old_self.table(), xdg_id, ObjectKind::XdgSurface) ==> {
            &&& self.table() == old_self.table().insert(xdg_id, self.table()[xdg_id])
            &&& match (old_self.table()[xdg_id], self.table()[xdg_id]) {
                (ProtocolObject::XdgSurface(a), ProtocolObject::XdgSurface(b)) => {
                    &&& b.surface_id == a.surface_id && b.role_object == a.role_object
                    &&& b.issued_serials == a.issued_serials
                    &&& a.issued_serials@.contains(serial) ==> r is Ok && b.acked_serial == Some(serial)
                    &&& !a.issued_serials@.contains(serial) ==> r == Err::<(), ProtocolError>(
                        ProtocolError::InvalidObjectReference,
                    ) && b.acked_serial == a.acked_serial
                },
                _ => false,
            }
        })
    }

    /// Records the client's acknowledgment of a configure serial.
    pub fn ack_configure(&mut self, xdg_id: u32, serial: u32) -> (r: Result<(), ProtocolError>)
        requires
            old(self).wf(),
        ensures
            final(self).wf(),
            final(self).ack_configure_outcome(old(self), xdg_id, serial, r),
    {
        let i = match self.find(xdg_id) {
            None => return Err(ProtocolError::InvalidObjectReference),
            Some(i) => i,
        };
        match &self.objects[i].object {
            ProtocolObject::XdgSurface(_) => {},
            _ => return Err(ProtocolError::InvalidObjectReference),
        }
        let ghost s = self.objects@;
        let r = match &mut self.objects[i].object {
            ProtocolObject::XdgSurface(x) => x.handle_ack_configure(serial),
            _ => Err(ProtocolError::InvalidObjectReference),
        };
        proof {
            lemma_update_wf(s, i as int, self.objects@[i as int].object);
        }
        r
    }

    /// The outcome of a state change on toplevel `toplevel_id`.
    pub open spec fn toplevel_request_outcome(
        &self,
        old_self: &WaylandClient,
        toplevel_id: u32,
        change: ToplevelChange,
        r: Result<(), ProtocolError>,
    ) -> bool {
        &&& self.id == old_self.id
        &&& self.client_socket_fd == old_self.client_socket_fd
        &&& (!is_kind(old_self.table(), toplevel_id, ObjectKind::XdgToplevel) ==> r == Err::<(), ProtocolError>(
            ProtocolError::InvalidObjectReference,
        ) && self.table() == old_self.table() && self.same_meta(old_self))
        &&& (is_kind(old_self.table(), toplevel_id, ObjectKind::XdgToplevel) && old_self.last_serial == u32::MAX
            ==> r == Err::<(), ProtocolError>(ProtocolError::SerialsExhausted) && self.table() == old_self.table()
            && self.same_meta(old_self))
        &&& (is_kind(old_self.table(), toplevel_id, ObjectKind::XdgToplevel) && old_self.last_serial < u32::MAX
            ==> match old_self.table()[toplevel_id] {
            ProtocolObject::XdgToplevel(a) => {
                let b = apply_change(a, change);
                let serial = (old_self.last_serial + 1) as u32;
                let t1 = old_self.table().insert(toplevel_id, ProtocolObject::XdgToplevel(b));
                &&& r is Ok
                &&& self.last_serial == serial
                &&& self.events@ == old_self.events@.push(
                    Event::ToplevelConfigure {
                        toplevel_id,
                        width: 0,
                        height: 0,
                        maximized: b.maximized,
                        fullscreen: b.fullscreen,
                    },
                ).push(Event::XdgConfigure { xdg_surface_id: a.xdg_surface_id, serial })
                &&& !is_kind(t1, a.xdg_surface_id, ObjectKind::XdgSurface) ==> self.table() == t1
                &&& is_kind(t1, a.xdg_surface_id, ObjectKind::XdgSurface) ==> {
                    &&& self.table() == t1.insert(a.xdg_surface_id, self.table()[a.xdg_surface_id])
                    &&& match (t1[a.xdg_surface_id], self.table()[a.xdg_surface_id]) {
                        (ProtocolObject::XdgSurface(x), ProtocolObject::XdgSurface(x2)) => x2.surface_id == x.surface_id
                            && x2.role_object == x.role_object && x2.acked_serial == x.acked_serial
                            && x2.issued_serials@ == x.issued_serials@.push(serial),
                        _ => false,
                    }
                }
            },
            _ => false,
        })
    }

    /// Applies a window-state change to a toplevel and schedules the configure
    /// pair that proposes it: the toplevel's configure and its xdg_surface's,
    /// with a fresh serial.
    pub fn toplevel_request(&mut self, toplevel_id: u32, change: ToplevelChange) -> (r: Result<(), ProtocolError>)
        requires
            old(self).wf(),
        ensures
            final(self).wf(),
            final(self).toplevel_request_outcome(old(self), toplevel_id, change, r),
    {
        let i = match self.find(toplevel_id) {
            None => return Err(ProtocolError::InvalidObjectReference),
            Some(i) => i,
        };
        match &self.objects[i].object {
            ProtocolObject::XdgToplevel(_) => {},
            _ => return Err(ProtocolError::InvalidObjectReference),
        }
        if self.last_serial == u32::MAX {
            return Err(ProtocolError::SerialsExhausted);
        }
        let ghost s = self.objects@;
        let (xdg_id, configure) = match &mut self.objects[i].object {
            ProtocolObject::XdgToplevel(tl) => {
                match change {
                    ToplevelChange::SetTitle(t) => tl.title = Some(t),
                    ToplevelChange::SetAppId(t) => tl.app_id = Some(t),
                    ToplevelChange::SetMaxSize(w, h) => tl.max_size = (w, h),
                    ToplevelChange::SetMinSize(w, h) => tl.min_size = (w, h),
                    ToplevelChange::SetMaximized => tl.maximized = true,
                    ToplevelChange::UnsetMaximized => tl.maximized = false,
                    ToplevelChange::SetFullscreen => tl.fullscreen = true,
                    ToplevelChange::UnsetFullscreen => tl.fullscreen = false,
                }
                (tl.xdg_surface_id, tl.configure_event(toplevel_id))
            },
            _ => {
                return Err(ProtocolError::InvalidObjectReference);
            },
        };
        proof {
            lemma_update_wf(s, i as int, self.objects@[i as int].object);
        }
        let serial = self.next_serial();
        self.events.push(configure);
        self.events.push(Event::XdgConfigure { xdg_surface_id: xdg_id, serial });
        let ghost t1 = self.table();
        match self.find(xdg_id) {
            None => {},
            Some(j) => {
                let is_xdg_surface = match &self.objects[j].object {
                    ProtocolObject::XdgSurface(_) => true,
                    _ => false,
                };
                if is_xdg_surface {
                    let ghost s1 = self.objects@;
                    match &mut self.objects[j].object {
                        ProtocolObject::XdgSurface(x) => x.record_configure(serial),
                        _ => {},
                    }
                    proof {
                        lemma_update_wf(s1, j as int, self.objects@[j as int].object);
                    }
                }
            },
        }
        proof {
            if !is_kind(t1, xdg_id, ObjectKind::XdgSurface) {
                assert(self.table() =~= t1);
            }
        }
        Ok(())
    }

    /// Sends a liveness ping on the `xdg_wm_base` global and returns its serial.
    pub fn ping(&mut self) -> (r: Result<u32, ProtocolError>)
        requires
            old(self).wf(),
        ensures
            final(self).wf(),
            final(self).id == old(self).id,
            final(self).client_socket_fd == old(self).client_socket_fd,
            old(self).last_serial == u32::MAX ==> r == Err::<u32, ProtocolError>(ProtocolError::SerialsExhausted)
                && final(self).table() == old(self).table() && final(self).same_meta(old(self)),
            old(self).last_serial < u32::MAX ==> {
                let serial = (old(self).last_serial + 1) as u32;
                &&& r == Ok::<u32, ProtocolError>(serial)
                &&& final(self).last_serial == serial
                &&& final(self).events@ == old(self).events@.push(Event::Ping { wm_base_id: XDG_WM_BASE_ID, serial })
                &&& final(self).table() == old(self).table().insert(XDG_WM_BASE_ID, final(self).table()[XDG_WM_BASE_ID])
                &&& match (old(self).table()[XDG_WM_BASE_ID], final(self).table()[XDG_WM_BASE_ID]) {
                    (ProtocolObject::WmBase(a), ProtocolObject::WmBase(b)) => b.pending_pings@ == a.pending_pings@.push(serial),
                    _ => false,
                }
            },
    {
        if self.last_serial == u32::MAX {
            return Err(ProtocolError::SerialsExhausted);
        }
        let serial = self.next_serial();
        match self.find(XDG_WM_BASE_ID) {
            None => {},
            Some(i) => {
                let ghost s = self.objects@;
                match &mut self.objects[i].object {
                    ProtocolObject::WmBase(w) => w.record_ping(serial),
                    _ => {},
                }
                proof {
                    lemma_update_wf(s, i as int, self.objects@[i as int].object);
                }
            },
        }
        self.events.push(Event::Ping { wm_base_id: XDG_WM_BASE_ID, serial });
        Ok(serial)
    }

    /// The outcome of a pong for `serial`.
    pub open spec fn pong_outcome(&self, old_self: &WaylandClient, serial: u32) -> bool {
        &&& self.same_meta(old_self)
        &&& self.table() == old_self.table().insert(XDG_WM_BASE_ID, self.table()[XDG_WM_BASE_ID])
        &&& (match (old_self.table()[XDG_WM_BASE_ID], self.table()[XDG_WM_BASE_ID]) {
            (ProtocolObject::WmBase(a), ProtocolObject::WmBase(b)) => {
                &&& !a.pending_pings@.contains(serial) ==> b.pending_pings@ == a.pending_pings@
                &&& a.pending_pings@.contains(serial) ==> exists|k: int|
                    0 <= k < a.pending_pings@.len() && a.pending_pings@[k] == serial && b.pending_pings@
                        == a.pending_pings@.remove(k)
            },
            _ => false,
        })
    }

    /// Answers a ping; a pong for a serial never pinged changes nothing.
    pub fn pong(&mut self, serial: u32)
        requires
            old(self).wf(),
        ensures
            final(self).wf(),
            final(self).pong_outcome(old(self), serial),
    {
        match self.find(XDG_WM_BASE_ID) {
            None => {},
            Some(i) => {
                let ghost s = self.objects@;
                match &mut self.objects[i].object {
                    ProtocolObject::WmBase(w) => {
                        let _ = w.handle_pong(serial);
                    },
                    _ => {},
                }
                proof {
                    lemma_update_wf(s, i as int, self.objects@[i as int].object);
                }
            },
        }
    }
}

} // verus!
