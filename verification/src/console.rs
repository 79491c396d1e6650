//! What the Linux console's keyboard shift state says. The state is sampled
//! with the `TIOCLINUX` ioctl, which fails off a kernel VT (`None`).

use vstd::prelude::*;

verus! {

/// Bit of the shift state that is set while Shift is held.
pub const SHIFT: u8 = 0x01;

/// A shift state could be read: we run on a kernel VT, where Ctrl+Shift
/// chords can be told from plain Ctrl ones.
pub fn is_console(state: Option<u8>) -> (b: bool)
    ensures
        b == state is Some,
{
    state.is_some()
}

/// Whether Shift is held according to the sampled state (never off a VT).
pub fn shift_held(state: Option<u8>) -> (b: bool)
    ensures
        b == (state matches Some(s) && s & SHIFT != 0),
{
    match state {
        Some(s) => s & SHIFT != 0,
        None => false,
    }
}

} // verus!
