//! The fly camera's decisions: which way held keys move it, and how far it may
//! turn and speed up.
use vstd::prelude::*;
use crate::limits;
use crate::scalar::Scalar;

verus! {

/// How far the camera looks up or down, in radians: the bit pattern of 1.553.
pub const PITCH_LIMIT_BITS: u32 = 0x3FC6_C8B4;

/// The slowest flight: the bit pattern of five.
pub const MIN_SPEED_BITS: u32 = 0x40A0_0000;

/// The fastest flight: the bit pattern of 16384.
pub const MAX_SPEED_BITS: u32 = 0x4680_0000;

/// The movement keys that are held.
#[derive(Debug, Clone, Copy, PartialEq, Eq, Structural)]
pub struct HeldKeys {
    pub fwd: bool,
    pub back: bool,
    pub left: bool,
    pub right: bool,
    pub up: bool,
    pub down: bool,
}

/// A direction of flight along the camera's axes.
#[derive(Debug, Clone, Copy, PartialEq, Eq, Structural)]
pub struct Direction {
    pub right: i8,
    pub up: i8,
    pub forward: i8,
}

/// One for a held key, minus one for its opposite, zero for both or neither.
pub open spec fn along(plus: bool, minus: bool) -> i8 {
    if plus == minus {
        0i8
    } else if plus {
        1i8
    } else {
        -1i8
    }
}

fn axis(plus: bool, minus: bool) -> (r: i8)
    ensures
        r == along(plus, minus),
{
    if plus == minus {
        0
    } else if plus {
        1
    } else {
        -1
    }
}

impl HeldKeys {
    /// The direction that the held keys add up to.
    pub open spec fn towards(self) -> Direction {
        Direction {
            right: along(self.right, self.left),
            up: along(self.up, self.down),
            forward: along(self.fwd, self.back),
        }
    }

    /// The direction that the held keys add up to; opposite keys cancel.
    pub fn direction(&self) -> (r: Direction)
        ensures
            r == self.towards(),
    {
        Direction {
            right: axis(self.right, self.left),
            up: axis(self.up, self.down),
            forward: axis(self.fwd, self.back),
        }
    }

    /// The keys with every one exchanged for its opposite.
    pub open spec fn opposite(self) -> HeldKeys {
        HeldKeys {
            fwd: self.back,
            back: self.fwd,
            left: self.right,
            right: self.left,
            up: self.down,
            down: self.up,
        }
    }
}

/// Opposite keys fly the opposite way.
pub proof fn opposite_keys_fly_back(keys: HeldKeys)
    ensures
        keys.opposite().towards().right == -keys.towards().right,
        keys.opposite().towards().up == -keys.towards().up,
        keys.opposite().towards().forward == -keys.towards().forward,
{
}

/// Keep the view from tipping over.
pub fn limited_pitch(pitch: Scalar) -> (r: Scalar)
    ensures
        r == limits::clamped(
            pitch,
            limits::negative_of((Scalar { bits: PITCH_LIMIT_BITS })),
            (Scalar { bits: PITCH_LIMIT_BITS }),
        ),
{
    let most = Scalar::from_bits(PITCH_LIMIT_BITS);
    limits::clamp_number(pitch, most.negated(), most)
}

/// Keep the speed of flight in its range.
pub fn limited_speed(speed: Scalar) -> (r: Scalar)
    ensures
        r == limits::clamped(
            speed,
            (Scalar { bits: MIN_SPEED_BITS }),
            (Scalar { bits: MAX_SPEED_BITS }),
        ),
{
    limits::clamp_number(
        speed,
        Scalar::from_bits(MIN_SPEED_BITS),
        Scalar::from_bits(MAX_SPEED_BITS),
    )
}

/// The height that the picture's proportions are taken from: at least one line.
pub fn picture_height(height: u32) -> (r: u32)
    ensures
        r == (if height == 0 {
            1
        } else {
            height
        }),
{
    if height == 0 {
        1
    } else {
        height
    }
}

/// Each held key counts one for its own way, and the keys of the other axes do
/// not matter to an axis.
pub proof fn held_keys_add_up(keys: HeldKeys)
    ensures
        keys.towards().right == (if keys.right { 1int } else { 0 }) - (if keys.left { 1int } else {
            0
        }),
        keys.towards().up == (if keys.up { 1int } else { 0 }) - (if keys.down { 1int } else { 0 }),
        keys.towards().forward == (if keys.fwd { 1int } else { 0 }) - (if keys.back { 1int } else {
            0
        }),
{
}

} // verus!
