//! Display-server session detection from environment signals.
//!
//! The process environment is read by the caller and handed in as plain
//! values; resolution itself is pure. Callers memoize the result for the
//! process lifetime.
use vstd::prelude::*;

verus! {

/// The kind of display-server session.
#[derive(Clone, Copy, PartialEq, Eq, Structural, Debug)]
pub enum DesktopEnv {
    X11,
    Wayland,
    Unknown,
}

/// ASCII lower-casing of one byte.
pub open spec fn to_ascii_lower(c: u8) -> u8 {
    if 0x41u8 <= c <= 0x5au8 {
        (c + 0x20u8) as u8
    } else {
        c
    }
}

/// `b`, lower-cased byte by byte, spells `wayland`.
pub open spec fn spells_wayland(b: Seq<u8>) -> bool {
    b.len() == 7 && to_ascii_lower(b[0]) == 0x77u8 && to_ascii_lower(b[1]) == 0x61u8
        && to_ascii_lower(b[2]) == 0x79u8 && to_ascii_lower(b[3]) == 0x6cu8 && to_ascii_lower(
        b[4],
    ) == 0x61u8 && to_ascii_lower(b[5]) == 0x6eu8 && to_ascii_lower(b[6]) == 0x64u8
}

/// `b`, lower-cased byte by byte, spells `x11`.
pub open spec fn spells_x11(b: Seq<u8>) -> bool {
    b.len() == 3 && to_ascii_lower(b[0]) == 0x78u8 && b[1] == 0x31u8 && b[2] == 0x31u8
}

/// The resolved session kind, in priority order: a declared session type
/// wins, then the presence of a Wayland display variable, then the
/// presence of an X display variable, then Unknown.
pub open spec fn spec_resolve_env(
    session_type: Option<Seq<u8>>,
    has_wayland_display: bool,
    has_x_display: bool,
) -> DesktopEnv {
    if session_type is Some && spells_wayland(session_type->0) {
        DesktopEnv::Wayland
    } else if session_type is Some && spells_x11(session_type->0) {
        DesktopEnv::X11
    } else if has_wayland_display {
        DesktopEnv::Wayland
    } else if has_x_display {
        DesktopEnv::X11
    } else {
        DesktopEnv::Unknown
    }
}

/// Lower-case one ASCII byte.
fn ascii_lower(c: u8) -> (r: u8)
    ensures
        r == to_ascii_lower(c),
{
    if 0x41u8 <= c && c <= 0x5au8 {
        c + 0x20u8
    } else {
        c
    }
}

/// Resolve the session kind from the environment signals: the declared
/// session type (the bytes of `XDG_SESSION_TYPE`, if set), and whether
/// `WAYLAND_DISPLAY` and `DISPLAY` are set.
pub fn current_desktop_env(
    session_type: Option<&Vec<u8>>,
    has_wayland_display: bool,
    has_x_display: bool,
) -> (r: DesktopEnv)
    ensures
        r == spec_resolve_env(
            match session_type {
                Some(v) => Some(v@),
                None => None,
            },
            has_wayland_display,
            has_x_display,
        ),
{
    if let Some(st) = session_type {
        if st.len() == 7 {
            if ascii_lower(st[0]) == 0x77u8 && ascii_lower(st[1]) == 0x61u8 && ascii_lower(st[2])
                == 0x79u8 && ascii_lower(st[3]) == 0x6cu8 && ascii_lower(st[4]) == 0x61u8
                && ascii_lower(st[5]) == 0x6eu8 && ascii_lower(st[6]) == 0x64u8 {
                return DesktopEnv::Wayland;
            }
        }
        if st.len() == 3 {
            if ascii_lower(st[0]) == 0x78u8 && st[1] == 0x31u8 && st[2] == 0x31u8 {
                return DesktopEnv::X11;
            }
        }
    }
    if has_wayland_display {
        DesktopEnv::Wayland
    } else if has_x_display {
        DesktopEnv::X11
    } else {
        DesktopEnv::Unknown
    }
}

} // verus!
