//! A protocol engine for a Wayland-style display server: per-connection
//! object tables, request dispatch, surface double buffering and roles,
//! shared-memory pool and buffer lifetimes, the xdg shell handshake, seat
//! devices, and the frame scheduler's view of all sessions.

pub mod client;
pub mod dispatch;
pub mod display;
pub mod frames;
pub mod handlers;
pub mod object;
pub mod protocol;
pub mod scheduler;
pub mod seat;
pub mod shell;
pub mod shell_requests;
pub mod shm;
pub mod surface;
