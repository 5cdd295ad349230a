//! Mouse coordinates for injected input: screen pixels to the absolute
//! range `0..=65535` that input injection expects across all monitors.
//!
//! Sending the events is done by the application, after `ensure_running`.
use vstd::prelude::*;
use crate::loadout_sync::types::ScreenPoint;

verus! {

/// The virtual desktop: origin and size in physical pixels.
#[derive(Debug, Clone, Copy, PartialEq, Eq, Structural)]
pub struct DesktopBounds {
    pub x: i32,
    pub y: i32,
    pub w: i32,
    pub h: i32,
}

/// One axis: `(p - origin) * 65535 / (max(size, 2) - 1)`, clamped to
/// `0..=65535`.
pub open spec fn normalize_axis(p: int, origin: int, size: int) -> int {
    let span = if size >= 2 {
        size - 1
    } else {
        1
    };
    let offset = p - origin;
    if offset <= 0 {
        0
    } else if offset * 65535 / span > 65535 {
        65535
    } else {
        offset * 65535 / span
    }
}

fn axis(p: i32, origin: i32, size: i32) -> (r: i32)
    ensures
        r == normalize_axis(p as int, origin as int, size as int),
        0 <= r <= 65535,
{
    let span: i64 = if size >= 2 {
        size as i64 - 1
    } else {
        1
    };
    let offset: i64 = p as i64 - origin as i64;
    if offset <= 0 {
        return 0;
    }
    assert(0 < offset * 65535 <= 0x1_0000_0000 * 65535) by (nonlinear_arith)
        requires
            0 < offset <= 0x1_0000_0000,
    ;
    let scaled: i64 = offset * 65535 / span;
    if scaled > 65535 {
        65535
    } else {
        scaled as i32
    }
}

impl DesktopBounds {
    /// Physical pixels to absolute input coordinates (`0..=65535` per axis).
    pub fn normalize(&self, p: ScreenPoint) -> (r: (i32, i32))
        ensures
            r.0 == normalize_axis(p.x as int, self.x as int, self.w as int),
            r.1 == normalize_axis(p.y as int, self.y as int, self.h as int),
            0 <= r.0 <= 65535,
            0 <= r.1 <= 65535,
    {
        (axis(p.x, self.x, self.w), axis(p.y, self.y, self.h))
    }
}

/// The check an automation session makes before every capture and every
/// input: with the cancel flag set (`Some(true)`), nothing more is captured
/// or sent and the session stops with `automation cancelled`; without a flag
/// (`None`) it never stops.
pub fn ensure_running(cancel_flag: Option<bool>) -> (r: Result<(), String>)
    ensures
        r is Ok <==> cancel_flag != Some(true),
        r matches Err(e) ==> e@ == "automation cancelled"@,
{
    match cancel_flag {
        Some(true) => Err(String::from_str("automation cancelled")),
        _ => Ok(()),
    }
}

} // verus!
