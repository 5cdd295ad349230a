//! Scroll directions of the list viewport and wheel amounts.
use vstd::prelude::*;

verus! {

/// Direction in which the list is to move relative to the viewport.
#[derive(Debug, Clone, Copy, PartialEq, Eq, Structural)]
pub enum ScrollDirection {
    /// Towards later items (the list scrolls down).
    Down,
    /// Towards earlier items (the list scrolls up).
    Up,
}

/// Wheel sign of a direction: positive scrolls up.
pub open spec fn wheel_sign_spec(d: ScrollDirection) -> int {
    match d {
        ScrollDirection::Up => 1,
        ScrollDirection::Down => -1,
    }
}

/// The other direction.
pub open spec fn opposite_spec(d: ScrollDirection) -> ScrollDirection {
    match d {
        ScrollDirection::Down => ScrollDirection::Up,
        ScrollDirection::Up => ScrollDirection::Down,
    }
}

impl ScrollDirection {
    /// The other direction.
    pub fn opposite(self) -> (r: ScrollDirection)
        ensures
            r == opposite_spec(self),
    {
        match self {
            ScrollDirection::Down => ScrollDirection::Up,
            ScrollDirection::Up => ScrollDirection::Down,
        }
    }

    /// Windows wheel sign: positive scrolls up (content moves down).
    pub fn wheel_sign(self) -> (r: i32)
        ensures
            r == wheel_sign_spec(self),
    {
        match self {
            ScrollDirection::Up => 1,
            ScrollDirection::Down => -1,
        }
    }
}

/// Reversing twice is the identity, and the two directions scroll with
/// opposite wheel signs.
pub proof fn lemma_opposite_involutive(d: ScrollDirection)
    ensures
        opposite_spec(opposite_spec(d)) == d,
        opposite_spec(d) != d,
        wheel_sign_spec(opposite_spec(d)) == -wheel_sign_spec(d),
{
}

/// Signed wheel notches for a direction and a magnitude (the sign of
/// `magnitude` is ignored).
pub fn wheel_notches(direction: ScrollDirection, magnitude: i32) -> (r: i32)
    requires
        magnitude != i32::MIN,
    ensures
        r == wheel_sign_spec(direction) * (if magnitude < 0 {
            -magnitude
        } else {
            magnitude as int
        }),
{
    let m = if magnitude < 0 {
        -magnitude
    } else {
        magnitude
    };
    direction.wheel_sign() * m
}

} // verus!
