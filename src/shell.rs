use vstd::prelude::*;
use crate::protocol::{Event, ProtocolError};
use crate::shm::position_of;

verus! {

/// The `xdg_wm_base` global, with the ping serials still awaiting a pong.
pub struct XdgWmBase {
    pub pending_pings: Vec<u32>,
}

impl XdgWmBase {
    pub fn new() -> (r: Self)
        ensures
            r.pending_pings@.len() == 0,
    {
        XdgWmBase { pending_pings: Vec::new() }
    }

    pub fn record_ping(&mut self, serial: u32)
        ensures
            final(self).pending_pings@ == old(self).pending_pings@.push(serial),
    {
        self.pending_pings.push(serial);
    }

    /// Answers a ping; a pong for a serial that was never pinged is ignored.
    /// Returns whether it answered an outstanding ping.
    pub fn handle_pong(&mut self, serial: u32) -> (r: bool)
        ensures
            r == old(self).pending_pings@.contains(serial),
            r ==> exists|i: int|
                0 <= i < old(self).pending_pings@.len() && old(self).pending_pings@[i] == serial
                    && final(self).pending_pings@ == old(self).pending_pings@.remove(i),
            !r ==> final(self).pending_pings@ == old(self).pending_pings@,
    {
        match position_of(&self.pending_pings, serial) {
            Some(i) => {
                self.pending_pings.remove(i);
                true
            }
            None => false,
        }
    }
}

/// An `xdg_positioner`.
pub struct XdgPositioner;

/// An `xdg_surface`: the bridge from a `wl_surface` to a shell role.
pub struct XdgSurface {
    pub surface_id: u32,
    /// The toplevel or popup created from it; there is at most one.
    pub role_object: Option<u32>,
    /// Serials of the configure events sent to it.
    pub issued_serials: Vec<u32>,
    pub acked_serial: Option<u32>,
}

impl XdgSurface {
    pub fn new(surface_id: u32) -> (r: Self)
        ensures
            r.surface_id == surface_id,
            r.role_object is None,
            r.issued_serials@.len() == 0,
            r.acked_serial is None,
    {
        XdgSurface { surface_id, role_object: None, issued_serials: Vec::new(), acked_serial: None }
    }

    pub fn record_configure(&mut self, serial: u32)
        ensures
            final(self).issued_serials@ == old(self).issued_serials@.push(serial),
            final(self).surface_id == old(self).surface_id,
            final(self).role_object == old(self).role_object,
            final(self).acked_serial == old(self).acked_serial,
    {
        self.issued_serials.push(serial);
    }

    /// Records the client's acknowledgment; only serials sent to this object are accepted.
    pub fn handle_ack_configure(&mut self, serial: u32) -> (r: Result<(), ProtocolError>)
        ensures
            old(self).issued_serials@.contains(serial) ==> r is Ok && final(self).acked_serial == Some(serial),
            !old(self).issued_serials@.contains(serial) ==> r == Err::<(), ProtocolError>(
                ProtocolError::InvalidObjectReference,
            ) && final(self).acked_serial == old(self).acked_serial,
            final(self).issued_serials == old(self).issued_serials,
            final(self).surface_id == old(self).surface_id,
            final(self).role_object == old(self).role_object,
    {
        match position_of(&self.issued_serials, serial) {
            Some(_) => {
                self.acked_serial = Some(serial);
                Ok(())
            }
            None => Err(ProtocolError::InvalidObjectReference),
        }
    }
}

/// An `xdg_toplevel`: window metadata of a surface with the toplevel role.
pub struct XdgToplevel {
    pub xdg_surface_id: u32,
    pub title: Option<String>,
    pub app_id: Option<String>,
    pub min_size: (i32, i32),
    pub max_size: (i32, i32),
    pub maximized: bool,
    pub fullscreen: bool,
}

impl XdgToplevel {
    pub fn new(xdg_surface_id: u32) -> (r: Self)
        ensures
            r.xdg_surface_id == xdg_surface_id,
            r.title is None && r.app_id is None,
            r.min_size == (0i32, 0i32) && r.max_size == (0i32, 0i32),
            !r.maximized && !r.fullscreen,
    {
        XdgToplevel {
            xdg_surface_id,
            title: None,
            app_id: None,
            min_size: (0, 0),
            max_size: (0, 0),
            maximized: false,
            fullscreen: false,
        }
    }

    /// The configure event that proposes the current window state.
    pub fn configure_event(&self, toplevel_id: u32) -> (r: Event)
        ensures
            r == (Event::ToplevelConfigure {
                toplevel_id,
                width: 0,
                height: 0,
                maximized: self.maximized,
                fullscreen: self.fullscreen,
            }),
    {
        Event::ToplevelConfigure {
            toplevel_id,
            width: 0,
            height: 0,
            maximized: self.maximized,
            fullscreen: self.fullscreen,
        }
    }
}

/// An `xdg_popup`.
pub struct XdgPopup {
    pub xdg_surface_id: u32,
}

} // verus!
