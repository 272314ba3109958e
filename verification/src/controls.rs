//! What a viewer does on a key and between two frames.
use vstd::prelude::*;
use crate::scalar::{Scalar, SIGN_BIT};

verus! {

/// The pattern of `0.1`: the turn, in radians, that one key press asks for.
pub const STEP_BITS: u32 = 0x3dcc_cccd;

/// The pattern of `0.01`: the turn about the X axis between two frames.
pub const IDLE_X_BITS: u32 = 0x3c23_d70a;

/// The pattern of `0.015`: the turn about the Y axis between two frames.
pub const IDLE_Y_BITS: u32 = 0x3c75_c28f;

/// A key, as far as the viewer tells keys apart.
#[derive(Clone, Copy, Debug, PartialEq, Eq, Structural)]
pub enum Key {
    Char(char),
    Esc,
    Up,
    Down,
    Left,
    Right,
    Other,
}

/// What the viewer is to do.
#[derive(Clone, Copy, Debug, PartialEq, Eq, Structural)]
pub enum Command {
    Quit,
    /// Add these angles, in radians, to the rotation about the three axes.
    Rotate { dx: Scalar, dy: Scalar, dz: Scalar },
    Ignore,
}

/// The turn by one step about one axis: axis 0 is X, 1 is Y, 2 is Z.
pub open spec fn step(axis: int, forward: bool) -> Command {
    let zero = Scalar::zero();
    let by = if forward {
        Scalar { bits: STEP_BITS }
    } else {
        Scalar { bits: (SIGN_BIT + STEP_BITS) as u32 }
    };
    Command::Rotate {
        dx: if axis == 0 { by } else { zero },
        dy: if axis == 1 { by } else { zero },
        dz: if axis == 2 { by } else { zero },
    }
}

/// What a key asks for: `q` and escape quit; `w` and `s`, or up and down,
/// turn about the X axis; `d` and `a`, or right and left, about the Y axis;
/// `e` and `r` roll about the Z axis. Every other key is ignored.
pub open spec fn command_of(key: Key) -> Command {
    match key {
        Key::Esc => Command::Quit,
        Key::Up => step(0, true),
        Key::Down => step(0, false),
        Key::Right => step(1, true),
        Key::Left => step(1, false),
        Key::Char(c) => if c == 'q' {
            Command::Quit
        } else if c == 'w' {
            step(0, true)
        } else if c == 's' {
            step(0, false)
        } else if c == 'd' {
            step(1, true)
        } else if c == 'a' {
            step(1, false)
        } else if c == 'e' {
            step(2, true)
        } else if c == 'r' {
            step(2, false)
        } else {
            Command::Ignore
        },
        Key::Other => Command::Ignore,
    }
}

fn turn(axis: u8, forward: bool) -> (r: Command)
    requires
        axis < 3,
    ensures
        r == step(axis as int, forward),
{
    let zero = Scalar { bits: 0 };
    let by = if forward {
        Scalar { bits: STEP_BITS }
    } else {
        Scalar { bits: SIGN_BIT + STEP_BITS }
    };
    Command::Rotate {
        dx: if axis == 0 { by } else { zero },
        dy: if axis == 1 { by } else { zero },
        dz: if axis == 2 { by } else { zero },
    }
}

/// What a key asks for.
pub fn command_for_key(key: Key) -> (r: Command)
    ensures
        r == command_of(key),
{
    match key {
        Key::Esc | Key::Char('q') => Command::Quit,
        Key::Up | Key::Char('w') => turn(0, true),
        Key::Down | Key::Char('s') => turn(0, false),
        Key::Right | Key::Char('d') => turn(1, true),
        Key::Left | Key::Char('a') => turn(1, false),
        Key::Char('e') => turn(2, true),
        Key::Char('r') => turn(2, false),
        _ => Command::Ignore,
    }
}

/// The slow turn that the mesh makes of its own between two frames.
pub fn idle_command() -> (r: Command)
    ensures
        r == (Command::Rotate {
            dx: Scalar { bits: IDLE_X_BITS },
            dy: Scalar { bits: IDLE_Y_BITS },
            dz: Scalar::zero(),
        }),
{
    Command::Rotate {
        dx: Scalar { bits: IDLE_X_BITS },
        dy: Scalar { bits: IDLE_Y_BITS },
        dz: Scalar { bits: 0 },
    }
}

/// How long to rest after a frame that took `elapsed` where a frame is to
/// take `target`, both in nanoseconds: the rest of the time, and nothing
/// after a frame that took as long or longer.
pub fn rest_after(elapsed: u128, target: u128) -> (r: Option<u128>)
    ensures
        r == if elapsed < target {
            Some((target - elapsed) as u128)
        } else {
            None
        },
{
    if elapsed < target {
        Some(target - elapsed)
    } else {
        None
    }
}

} // verus!
