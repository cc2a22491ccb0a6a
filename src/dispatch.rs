use vstd::prelude::*;
use crate::client::{is_kind, WaylandClient};
use crate::handlers::SurfaceOp;
use crate::object::{kind_of, ObjectKind, ProtocolObject};
use crate::protocol::{
    arg_int, arg_mapped, arg_str, arg_uint, int_arg, mapped_arg, str_arg, uint_arg, Arg, ProtocolError, Request,
};
use crate::shell_requests::ToplevelChange;

verus! {

/// Number of requests each kind of object understands; opcodes run from 0.
pub open spec fn opcode_count(k: ObjectKind) -> u16 {
    match k {
        ObjectKind::Display => 2,
        ObjectKind::Registry => 1,
        ObjectKind::Compositor => 2,
        ObjectKind::Region => 3,
        ObjectKind::Surface => 7,
        ObjectKind::Shm => 1,
        ObjectKind::ShmPool => 3,
        ObjectKind::Buffer => 1,
        ObjectKind::Seat => 4,
        ObjectKind::Keyboard => 1,
        ObjectKind::Pointer => 2,
        ObjectKind::WmBase => 4,
        ObjectKind::XdgSurface => 5,
        ObjectKind::XdgToplevel => 14,
        ObjectKind::XdgPopup => 3,
        ObjectKind::Positioner => 10,
    }
}

pub fn request_count(k: ObjectKind) -> (r: u16)
    ensures
        r == opcode_count(k),
{
    match k {
        ObjectKind::Display => 2,
        ObjectKind::Registry => 1,
        ObjectKind::Compositor => 2,
        ObjectKind::Region => 3,
        ObjectKind::Surface => 7,
        ObjectKind::Shm => 1,
        ObjectKind::ShmPool => 3,
        ObjectKind::Buffer => 1,
        ObjectKind::Seat => 4,
        ObjectKind::Keyboard => 1,
        ObjectKind::Pointer => 2,
        ObjectKind::WmBase => 4,
        ObjectKind::XdgSurface => 5,
        ObjectKind::XdgToplevel => 14,
        ObjectKind::XdgPopup => 3,
        ObjectKind::Positioner => 10,
    }
}

/// The double-buffer operation a surface request stands for, if any.
pub open spec fn surface_op_of(opcode: u16, args: Seq<Arg>) -> Option<SurfaceOp> {
    if opcode == 1 {
        Some(SurfaceOp::Attach { buffer_id: arg_uint(args, 0), x: arg_int(args, 1), y: arg_int(args, 2) })
    } else if opcode == 2 {
        Some(SurfaceOp::Damage { x: arg_int(args, 0), y: arg_int(args, 1), width: arg_int(args, 2), height: arg_int(args, 3) })
    } else if opcode == 3 {
        Some(SurfaceOp::Frame { callback_id: arg_uint(args, 0) })
    } else if opcode == 6 {
        Some(SurfaceOp::Commit)
    } else {
        None
    }
}

impl WaylandClient {
    /// Nothing changed and the request succeeded.
    pub open spec fn ignored(&self, old_self: &WaylandClient, r: Result<(), ProtocolError>) -> bool {
        r is Ok && self.table() == old_self.table() && self.same_meta(old_self)
    }

    /// The request on object `id`, of kind `kind`, had the effect of the
    /// handler its opcode names, on the decoded arguments.
    pub open spec fn routed(
        &self,
        old_self: &WaylandClient,
        id: u32,
        kind: ObjectKind,
        opcode: u16,
        args: Seq<Arg>,
        r: Result<(), ProtocolError>,
    ) -> bool {
        let u0 = arg_uint(args, 0);
        match kind {
            ObjectKind::Display => if opcode == 0 {
                r is Ok && self.sync_outcome(old_self, u0)
            } else {
                self.get_registry_outcome(old_self, u0, r)
            },
            ObjectKind::Registry => self.bind_outcome(old_self, u0, r),
            ObjectKind::Compositor => if opcode == 0 {
                self.create_surface_outcome(old_self, u0, r)
            } else {
                self.create_region_outcome(old_self, u0, r)
            },
            ObjectKind::Surface => match surface_op_of(opcode, args) {
                Some(op) => self.surface_request_outcome(old_self, id, op, r),
                None => self.ignored(old_self, r),
            },
            ObjectKind::Shm => self.create_pool_outcome(
                old_self,
                u0,
                arg_int(args, 1),
                arg_int(args, 2),
                arg_mapped(args, 1),
                r,
            ),
            ObjectKind::ShmPool => if opcode == 0 {
                self.create_buffer_outcome(
                    old_self,
                    id,
                    u0,
                    arg_int(args, 1),
                    arg_int(args, 2),
                    arg_int(args, 3),
                    arg_int(args, 4),
                    arg_uint(args, 5),
                    r,
                )
            } else if opcode == 1 {
                self.destroy_pool_outcome(old_self, id, r)
            } else {
                self.resize_pool_outcome(old_self, id, arg_int(args, 0), r)
            },
            ObjectKind::Buffer => self.destroy_buffer_outcome(old_self, id, r),
            ObjectKind::Seat => if opcode == 0 {
                self.get_pointer_outcome(old_self, u0, r)
            } else if opcode == 1 {
                self.get_keyboard_outcome(old_self, u0, r)
            } else if opcode == 2 {
                self.get_touch_outcome(old_self, id, r)
            } else {
                self.ignored(old_self, r)
            },
            ObjectKind::Pointer => if opcode == 0 {
                self.set_cursor_outcome(old_self, id, arg_uint(args, 1), r)
            } else {
                self.ignored(old_self, r)
            },
            ObjectKind::WmBase => if opcode == 1 {
                self.create_positioner_outcome(old_self, u0, r)
            } else if opcode == 2 {
                self.get_xdg_surface_outcome(old_self, u0, arg_uint(args, 1), r)
            } else if opcode == 3 {
                r is Ok && self.pong_outcome(old_self, u0)
            } else {
                self.ignored(old_self, r)
            },
            ObjectKind::XdgSurface => if opcode == 1 {
                self.shell_role_outcome(old_self, id, u0, true, r)
            } else if opcode == 2 {
                self.shell_role_outcome(old_self, id, u0, false, r)
            } else if opcode == 4 {
                self.ack_configure_outcome(old_self, id, u0, r)
            } else {
                self.ignored(old_self, r)
            },
            ObjectKind::XdgToplevel => if opcode == 2 {
                exists|t: String| t@ == arg_str(args, 0) && self.toplevel_request_outcome(old_self, id, ToplevelChange::SetTitle(t), r)
            } else if opcode == 3 {
                exists|t: String| t@ == arg_str(args, 0) && self.toplevel_request_outcome(old_self, id, ToplevelChange::SetAppId(t), r)
            } else if opcode == 7 {
                self.toplevel_request_outcome(old_self, id, ToplevelChange::SetMaxSize(arg_int(args, 0), arg_int(args, 1)), r)
            } else if opcode == 8 {
                self.toplevel_request_outcome(old_self, id, ToplevelChange::SetMinSize(arg_int(args, 0), arg_int(args, 1)), r)
            } else if opcode == 9 {
                self.toplevel_request_outcome(old_self, id, ToplevelChange::SetMaximized, r)
            } else if opcode == 10 {
                self.toplevel_request_outcome(old_self, id, ToplevelChange::UnsetMaximized, r)
            } else if opcode == 11 {
                self.toplevel_request_outcome(old_self, id, ToplevelChange::SetFullscreen, r)
            } else if opcode == 12 {
                self.toplevel_request_outcome(old_self, id, ToplevelChange::UnsetFullscreen, r)
            } else {
                self.ignored(old_self, r)
            },
            _ => self.ignored(old_self, r),
        }
    }

    /// Resolves the request's target and hands it to that object's handler.
    /// A target missing from the table is a fatal invalid reference.
    pub fn dispatch(&mut self, request: Request) -> (r: Result<(), ProtocolError>)
        requires
            old(self).wf(),
        ensures
            final(self).wf(),
            final(self).id == old(self).id,
            final(self).client_socket_fd == old(self).client_socket_fd,
            old(self).last_serial <= final(self).last_serial,
            !old(self).table().contains_key(request.object_id) ==> r == Err::<(), ProtocolError>(
                ProtocolError::InvalidObjectReference,
            ) && final(self).table() == old(self).table() && final(self).same_meta(old(self)),
            old(self).table().contains_key(request.object_id) && request.opcode >= opcode_count(
                kind_of(old(self).table()[request.object_id]),
            ) ==> r == Err::<(), ProtocolError>(ProtocolError::UnknownOpcode) && final(self).table() == old(self).table()
                && final(self).same_meta(old(self)),
            old(self).table().contains_key(request.object_id) && request.opcode < opcode_count(
                kind_of(old(self).table()[request.object_id]),
            ) ==> final(self).routed(
                old(self),
                request.object_id,
                kind_of(old(self).table()[request.object_id]),
                request.opcode,
                request.args@,
                r,
            ),
    {
        let id = request.object_id;
        let opcode = request.opcode;
        let args = &request.args;
        let kind = match self.object_kind(id) {
            None => return Err(ProtocolError::InvalidObjectReference),
            Some(k) => k,
        };
        if opcode >= request_count(kind) {
            return Err(ProtocolError::UnknownOpcode);
        }
        match kind {
            ObjectKind::Display => {
                if opcode == 0 {
                    self.sync(uint_arg(args, 0));
                    Ok(())
                } else {
                    self.get_registry(uint_arg(args, 0))
                }
            },
            ObjectKind::Registry => self.bind(uint_arg(args, 0)),
            ObjectKind::Compositor => {
                if opcode == 0 {
                    self.create_surface(uint_arg(args, 0))
                } else {
                    self.create_region(uint_arg(args, 0))
                }
            },
            ObjectKind::Surface => {
                if opcode == 1 {
                    let op = SurfaceOp::Attach { buffer_id: uint_arg(args, 0), x: int_arg(args, 1), y: int_arg(args, 2) };
                    self.surface_request(id, op)
                } else if opcode == 2 {
                    let op = SurfaceOp::Damage {
                        x: int_arg(args, 0),
                        y: int_arg(args, 1),
                        width: int_arg(args, 2),
                        height: int_arg(args, 3),
                    };
                    self.surface_request(id, op)
                } else if opcode == 3 {
                    self.surface_request(id, SurfaceOp::Frame { callback_id: uint_arg(args, 0) })
                } else if opcode == 6 {
                    self.surface_request(id, SurfaceOp::Commit)
                } else {
                    Ok(())
                }
            },
            ObjectKind::Shm => self.create_pool(uint_arg(args, 0), int_arg(args, 1), int_arg(args, 2), mapped_arg(args, 1)),
            ObjectKind::ShmPool => {
                if opcode == 0 {
                    self.create_buffer(
                        id,
                        uint_arg(args, 0),
                        int_arg(args, 1),
                        int_arg(args, 2),
                        int_arg(args, 3),
                        int_arg(args, 4),
                        uint_arg(args, 5),
                    )
                } else if opcode == 1 {
                    self.destroy_pool(id)
                } else {
                    self.resize_pool(id, int_arg(args, 0))
                }
            },
            ObjectKind::Buffer => self.destroy_buffer(id),
            ObjectKind::Seat => {
                if opcode == 0 {
                    self.get_pointer(uint_arg(args, 0))
                } else if opcode == 1 {
                    self.get_keyboard(uint_arg(args, 0))
                } else if opcode == 2 {
                    self.get_touch(id)
                } else {
                    Ok(())
                }
            },
            ObjectKind::Pointer => {
                if opcode == 0 {
                    self.set_cursor(id, uint_arg(args, 1))
                } else {
                    Ok(())
                }
            },
            ObjectKind::WmBase => {
                if opcode == 1 {
                    self.create_positioner(uint_arg(args, 0))
                } else if opcode == 2 {
                    self.get_xdg_surface(uint_arg(args, 0), uint_arg(args, 1))
                } else if opcode == 3 {
                    self.pong(uint_arg(args, 0));
                    Ok(())
                } else {
                    Ok(())
                }
            },
            ObjectKind::XdgSurface => {
                if opcode == 1 {
                    self.get_toplevel(id, uint_arg(args, 0))
                } else if opcode == 2 {
                    self.get_popup(id, uint_arg(args, 0))
                } else if opcode == 4 {
                    self.ack_configure(id, uint_arg(args, 0))
                } else {
                    Ok(())
                }
            },
            ObjectKind::XdgToplevel => {
                if opcode == 2 {
                    self.toplevel_request(id, ToplevelChange::SetTitle(str_arg(args, 0)))
                } else if opcode == 3 {
                    self.toplevel_request(id, ToplevelChange::SetAppId(str_arg(args, 0)))
                } else if opcode == 7 {
                    self.toplevel_request(id, ToplevelChange::SetMaxSize(int_arg(args, 0), int_arg(args, 1)))
                } else if opcode == 8 {
                    self.toplevel_request(id, ToplevelChange::SetMinSize(int_arg(args, 0), int_arg(args, 1)))
                } else if opcode == 9 {
                    self.toplevel_request(id, ToplevelChange::SetMaximized)
                } else if opcode == 10 {
                    self.toplevel_request(id, ToplevelChange::UnsetMaximized)
                } else if opcode == 11 {
                    self.toplevel_request(id, ToplevelChange::SetFullscreen)
                } else if opcode == 12 {
                    self.toplevel_request(id, ToplevelChange::UnsetFullscreen)
                } else {
                    Ok(())
                }
            },
            _ => Ok(()),
        }
    }
}

} // verus!
