//! Hard caps of the selection state machine and the wait for home after the
//! last target.
//!
//! The post-click observation itself (viewport shift, border brightness drop)
//! is measured in floating point and is not part of this library.
use vstd::prelude::*;

verus! {

/// Confirmation timeout after a click.
pub const POST_CLICK_CONFIRM_TIMEOUT_MS: u64 = 400;
/// Observations needed before concluding after a click.
pub const POST_CLICK_MIN_OBSERVATIONS: u32 = 2;
/// Pixel tolerance for "the position changed".
pub const TARGET_POSITION_TOLERANCE: i32 = 2;
/// How long to wait for home after the last target.
pub const TERMINAL_SETTLE_TIMEOUT_MS: u64 = 600;
/// Clicks per target.
pub const MAX_TARGET_CLICK_ATTEMPTS: usize = 3;
/// Relocations before the hover.
pub const MAX_HOVER_RELOCATIONS: usize = 4;
/// Wheel inputs per direction.
pub const MAX_WHEEL_INPUTS: u32 = 20;

/// Result of waiting for home after the last target.
#[derive(Debug, Clone, PartialEq)]
pub enum TerminalHomeOutcome {
    /// Home is shown and the list is closed.
    Settled,
    /// Home did not come back in time.
    Timeout { elapsed_ms: u64 },
    /// Home appeared but the list is still open (maybe a wrong click).
    StillInList,
}

impl TerminalHomeOutcome {
    /// Stable label of the outcome.
    pub fn label(&self) -> (r: &'static str)
        ensures
            r@ == match self {
                TerminalHomeOutcome::Settled => "settled"@,
                TerminalHomeOutcome::Timeout { .. } => "timeout"@,
                TerminalHomeOutcome::StillInList => "still_in_list"@,
            },
    {
        match self {
            TerminalHomeOutcome::Settled => "settled",
            TerminalHomeOutcome::Timeout { .. } => "timeout",
            TerminalHomeOutcome::StillInList => "still_in_list",
        }
    }

    /// Only `Settled` counts as success.
    pub fn is_settled(&self) -> (r: bool)
        ensures
            r == (self is Settled),
    {
        match self {
            TerminalHomeOutcome::Settled => true,
            _ => false,
        }
    }
}

/// What the waiting loop does after one probe.
#[derive(Debug, Clone, PartialEq)]
pub enum TerminalStep {
    /// Stop with this outcome.
    Done(TerminalHomeOutcome),
    /// Sleep and probe again, remembering this elapsed time.
    Wait(u64),
}

/// One step of the wait for home, bounded by `timeout_ms`. `probe` is
/// `Some(settled)`, or `None` when nothing could be observed (never taken as
/// success); `elapsed_ms` is the time since the wait began, read at this
/// probe. Once the timeout has passed the wait ends whatever was seen: still
/// in the list if home was seen unsettled, a timeout if nothing was seen.
pub fn terminal_home_step(probe: Option<bool>, elapsed_ms: u64, timeout_ms: u64) -> (r:
    TerminalStep)
    ensures
        r == match probe {
            Some(true) => TerminalStep::Done(TerminalHomeOutcome::Settled),
            Some(false) => if elapsed_ms >= timeout_ms {
                TerminalStep::Done(TerminalHomeOutcome::StillInList)
            } else {
                TerminalStep::Wait(elapsed_ms)
            },
            None => if elapsed_ms >= timeout_ms {
                TerminalStep::Done(TerminalHomeOutcome::Timeout { elapsed_ms })
            } else {
                TerminalStep::Wait(elapsed_ms)
            },
        },
        elapsed_ms >= timeout_ms ==> r is Done,
        r == TerminalStep::Done(TerminalHomeOutcome::Settled) <==> probe == Some(true),
{
    match probe {
        Some(true) => TerminalStep::Done(TerminalHomeOutcome::Settled),
        Some(false) => {
            if elapsed_ms >= timeout_ms {
                TerminalStep::Done(TerminalHomeOutcome::StillInList)
            } else {
                TerminalStep::Wait(elapsed_ms)
            }
        },
        None => {
            if elapsed_ms >= timeout_ms {
                TerminalStep::Done(TerminalHomeOutcome::Timeout { elapsed_ms })
            } else {
                TerminalStep::Wait(elapsed_ms)
            }
        },
    }
}

} // verus!
