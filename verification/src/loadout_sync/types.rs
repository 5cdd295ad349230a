//! Geometry shared by the recognisers and the selection logic.
use vstd::prelude::*;

verus! {

/// An axis-aligned rectangle in frame pixels.
#[derive(Debug, Clone, Copy, PartialEq, Eq, Structural)]
pub struct ImageRect {
    pub x: i32,
    pub y: i32,
    pub w: u32,
    pub h: u32,
}

/// A point in virtual-desktop physical pixels.
#[derive(Debug, Clone, Copy, PartialEq, Eq, Structural)]
pub struct ScreenPoint {
    pub x: i32,
    pub y: i32,
}

impl ImageRect {
    /// A rectangle from its top-left corner and size.
    pub fn new(x: i32, y: i32, w: u32, h: u32) -> (r: ImageRect)
        ensures
            r == (ImageRect { x, y, w, h }),
    {
        ImageRect { x, y, w, h }
    }

    /// The centre, rounded down.
    pub open spec fn center_spec(self) -> (int, int) {
        (self.x + (self.w / 2) as int, self.y + (self.h / 2) as int)
    }

    /// The centre, rounded down.
    pub fn center(&self) -> (r: (i32, i32))
        requires
            i32::MIN <= self.center_spec().0 <= i32::MAX,
            i32::MIN <= self.center_spec().1 <= i32::MAX,
        ensures
            r.0 == self.center_spec().0,
            r.1 == self.center_spec().1,
    {
        let hx: i64 = (self.w / 2) as i64;
        let hy: i64 = (self.h / 2) as i64;
        ((self.x as i64 + hx) as i32, (self.y as i64 + hy) as i32)
    }
}

} // verus!
