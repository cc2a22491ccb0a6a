use vstd::prelude::*;

verus! {

/// Object id of the `wl_display` global.
pub const WL_DISPLAY_ID: u32 = 1;
/// Object id of the `wl_compositor` global.
pub const WL_COMPOSITOR_ID: u32 = 2;
/// Object id of the `wl_shm` global.
pub const WL_SHM_ID: u32 = 3;
/// Object id of the `xdg_wm_base` global.
pub const XDG_WM_BASE_ID: u32 = 4;
/// Object id of the `wl_seat` global.
pub const WL_SEAT_ID: u32 = 5;
/// Highest id reserved for globals; client-allocated ids lie above it.
pub const LAST_GLOBAL_ID: u32 = 5;

/// One decoded request argument.
pub enum Arg {
    Uint(u32),
    Int(i32),
    Str(String),
    Fd(i32),
    /// A claimed descriptor for shared memory, with whether the transport
    /// could map the requested bytes of it.
    MappedFd { fd: i32, mapped: bool },
}

/// A request as handed over by the wire-framing layer.
pub struct Request {
    pub object_id: u32,
    pub opcode: u16,
    pub args: Vec<Arg>,
}

/// The kinds of protocol failure a request can produce.
#[derive(Clone, Copy, Debug, PartialEq, Eq, Structural)]
pub enum ProtocolError {
    InvalidObjectReference,
    RoleConflict,
    UnknownOpcode,
    MissingCapability,
    MapFailure,
    SerialsExhausted,
}

pub open spec fn error_is_fatal(e: ProtocolError) -> bool {
    e == ProtocolError::InvalidObjectReference || e == ProtocolError::SerialsExhausted
}

impl ProtocolError {
    /// Whether the connection must be closed after this error.
    pub fn is_fatal(&self) -> (r: bool)
        ensures
            r == error_is_fatal(*self),
    {
        match self {
            ProtocolError::InvalidObjectReference => true,
            ProtocolError::SerialsExhausted => true,
            _ => false,
        }
    }
}

/// An outbound event, addressed to an object of the session.
#[derive(Debug)]
pub enum Event {
    Global { registry_id: u32, name: u32, interface: &'static str, version: u32 },
    Done { callback_id: u32 },
    Capabilities { seat_id: u32, capabilities: u32 },
    Format { shm_id: u32, format: u32 },
    Keymap { keyboard_id: u32, format: u32, fd: i32, size: u32 },
    XdgConfigure { xdg_surface_id: u32, serial: u32 },
    ToplevelConfigure { toplevel_id: u32, width: i32, height: i32, maximized: bool, fullscreen: bool },
    Ping { wm_base_id: u32, serial: u32 },
    Error { object_id: u32, error: ProtocolError },
}

/// The fixed global table: (id, interface name, version).
pub open spec fn global_table() -> Seq<(u32, Seq<char>, u32)> {
    seq![
        (1u32, "wl_display"@, 1u32),
        (2u32, "wl_compositor"@, 4u32),
        (3u32, "wl_shm"@, 1u32),
        (4u32, "xdg_wm_base"@, 1u32),
        (5u32, "wl_seat"@, 7u32),
    ]
}

pub open spec fn globals_view(s: Seq<(u32, &'static str, u32)>) -> Seq<(u32, Seq<char>, u32)> {
    s.map_values(|g: (u32, &'static str, u32)| (g.0, g.1@, g.2))
}

/// The advertised globals, always the same five entries.
pub fn global_list() -> (r: Vec<(u32, &'static str, u32)>)
    ensures
        globals_view(r@) == global_table(),
{
    let r = vec![
        (WL_DISPLAY_ID, "wl_display", 1),
        (WL_COMPOSITOR_ID, "wl_compositor", 4),
        (WL_SHM_ID, "wl_shm", 1),
        (XDG_WM_BASE_ID, "xdg_wm_base", 1),
        (WL_SEAT_ID, "wl_seat", 7),
    ];
    assert(globals_view(r@) =~= global_table());
    r
}

/// The global table holds five distinct ids, 1 to 5, and five distinct names.
pub proof fn lemma_global_table_exact()
    ensures
        global_table().len() == 5,
        forall|i: int| 0 <= i < 5 ==> #[trigger] global_table()[i].0 == i + 1,
        forall|i: int, j: int|
            0 <= i < 5 && 0 <= j < 5 && i != j ==> #[trigger] global_table()[i].1
                != #[trigger] global_table()[j].1,
{
    reveal_strlit("wl_display");
    reveal_strlit("wl_compositor");
    reveal_strlit("wl_shm");
    reveal_strlit("xdg_wm_base");
    reveal_strlit("wl_seat");
    assert(global_table()[0].1[3] != global_table()[1].1[3]);
    assert(global_table()[0].1[3] != global_table()[2].1[3]);
    assert(global_table()[0].1[0] != global_table()[3].1[0]);
    assert(global_table()[0].1[3] != global_table()[4].1[3]);
    assert(global_table()[1].1[3] != global_table()[2].1[3]);
    assert(global_table()[1].1[0] != global_table()[3].1[0]);
    assert(global_table()[1].1[3] != global_table()[4].1[3]);
    assert(global_table()[2].1[0] != global_table()[3].1[0]);
    assert(global_table()[2].1[4] != global_table()[4].1[4]);
    assert(global_table()[3].1[0] != global_table()[4].1[0]);
}

pub open spec fn arg_uint(args: Seq<Arg>, i: int) -> u32 {
    if 0 <= i < args.len() {
        match args[i] {
            Arg::Uint(v) => v,
            Arg::Int(v) => v as u32,
            _ => 0,
        }
    } else {
        0
    }
}

pub open spec fn arg_int(args: Seq<Arg>, i: int) -> i32 {
    if 0 <= i < args.len() {
        match args[i] {
            Arg::Uint(v) => v as i32,
            Arg::Int(v) => v,
            Arg::Fd(v) => v,
            Arg::MappedFd { fd, .. } => fd,
            _ => 0,
        }
    } else {
        0
    }
}

/// Whether argument `i` is a descriptor whose memory was mapped.
pub open spec fn arg_mapped(args: Seq<Arg>, i: int) -> bool {
    0 <= i < args.len() && match args[i] {
        Arg::MappedFd { mapped, .. } => mapped,
        _ => false,
    }
}

pub open spec fn arg_str(args: Seq<Arg>, i: int) -> Seq<char> {
    if 0 <= i < args.len() {
        match args[i] {
            Arg::Str(s) => s@,
            _ => Seq::empty(),
        }
    } else {
        Seq::empty()
    }
}

/// Unsigned argument `i`; absent or non-integer arguments read as 0.
pub fn uint_arg(args: &Vec<Arg>, i: usize) -> (r: u32)
    ensures
        r == arg_uint(args@, i as int),
{
    if i < args.len() {
        match &args[i] {
            Arg::Uint(v) => *v,
            Arg::Int(v) => *v as u32,
            _ => 0,
        }
    } else {
        0
    }
}

/// Signed argument `i` (a descriptor reads as its number); absent ones read as 0.
pub fn int_arg(args: &Vec<Arg>, i: usize) -> (r: i32)
    ensures
        r == arg_int(args@, i as int),
{
    if i < args.len() {
        match &args[i] {
            Arg::Uint(v) => *v as i32,
            Arg::Int(v) => *v,
            Arg::Fd(v) => *v,
            Arg::MappedFd { fd, .. } => *fd,
            _ => 0,
        }
    } else {
        0
    }
}

/// Whether argument `i` is a descriptor whose memory was mapped; anything else reads as not mapped.
pub fn mapped_arg(args: &Vec<Arg>, i: usize) -> (r: bool)
    ensures
        r == arg_mapped(args@, i as int),
{
    if i < args.len() {
        match &args[i] {
            Arg::MappedFd { mapped, .. } => *mapped,
            _ => false,
        }
    } else {
        false
    }
}

/// String argument `i`; absent or non-string arguments read as "".
pub fn str_arg(args: &Vec<Arg>, i: usize) -> (r: String)
    ensures
        r@ == arg_str(args@, i as int),
{
    if i < args.len() {
        match &args[i] {
            Arg::Str(s) => s.clone(),
            _ => String::new(),
        }
    } else {
        String::new()
    }
}

} // verus!
