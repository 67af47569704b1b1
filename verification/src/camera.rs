//! The fly camera's reading of the keyboard.

use vstd::prelude::*;

verus! {

/// The keys the fly camera listens to, pressed or not.
#[derive(Clone, Copy, Debug, PartialEq, Eq, Structural)]
pub struct FlyKeys {
    /// W
    pub forward: bool,
    /// S
    pub back: bool,
    /// A
    pub left: bool,
    /// D
    pub right: bool,
    /// Space
    pub up: bool,
    /// Left Shift
    pub down: bool,
    /// Arrow left
    pub turn_left: bool,
    /// Arrow right
    pub turn_right: bool,
    /// Arrow up
    pub pitch_up: bool,
    /// Arrow down
    pub pitch_down: bool,
}

/// Each axis in -1, 0 or 1: how many of the camera's forward, right and
/// world-up vectors the velocity holds, and the sign of the yaw (about the
/// world Y axis) and of the pitch (about the camera's own X axis).
#[derive(Clone, Copy, Debug, PartialEq, Eq, Structural)]
pub struct FlyIntent {
    pub forward: i8,
    pub right: i8,
    pub up: i8,
    pub yaw: i8,
    pub pitch: i8,
}

/// 1 for the positive key alone, -1 for the negative key alone, 0 for both
/// or neither.
pub open spec fn axis(positive: bool, negative: bool) -> int {
    (if positive { 1int } else { 0int }) - (if negative { 1int } else { 0int })
}

fn axis_value(positive: bool, negative: bool) -> (v: i8)
    ensures
        v == axis(positive, negative),
{
    let mut v: i8 = 0;
    if positive {
        v = v + 1;
    }
    if negative {
        v = v - 1;
    }
    v
}

/// The camera's intent for the keys held: W/S forward, D/A right,
/// Space/Shift up, arrow left/right yaw, arrow up/down pitch.
pub fn fly_intent(keys: &FlyKeys) -> (intent: FlyIntent)
    ensures
        intent.forward == axis(keys.forward, keys.back),
        intent.right == axis(keys.right, keys.left),
        intent.up == axis(keys.up, keys.down),
        intent.yaw == axis(keys.turn_left, keys.turn_right),
        intent.pitch == axis(keys.pitch_up, keys.pitch_down),
        intent.forward == (if keys.forward && !keys.back {
            1
        } else if keys.back && !keys.forward {
            -1
        } else {
            0
        }),
        intent.right == (if keys.right && !keys.left {
            1
        } else if keys.left && !keys.right {
            -1
        } else {
            0
        }),
        intent.up == (if keys.up && !keys.down {
            1
        } else if keys.down && !keys.up {
            -1
        } else {
            0
        }),
        intent.yaw == (if keys.turn_left && !keys.turn_right {
            1
        } else if keys.turn_right && !keys.turn_left {
            -1
        } else {
            0
        }),
        intent.pitch == (if keys.pitch_up && !keys.pitch_down {
            1
        } else if keys.pitch_down && !keys.pitch_up {
            -1
        } else {
            0
        }),
{
    FlyIntent {
        forward: axis_value(keys.forward, keys.back),
        right: axis_value(keys.right, keys.left),
        up: axis_value(keys.up, keys.down),
        yaw: axis_value(keys.turn_left, keys.turn_right),
        pitch: axis_value(keys.pitch_up, keys.pitch_down),
    }
}

} // verus!
