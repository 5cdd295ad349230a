//! Bounded page navigation: wheel inputs, their signed amounts and the
//! per-direction counters with hard caps.
use vstd::prelude::*;
use crate::loadout_sync::list_map::ScrollDirection;

verus! {

/// Wheel amount of a full page turn.
pub const PAGE_WHEEL_DELTA: i32 = 600;
/// Wheel amount of a boundary probe.
pub const PAGE_BOUNDARY_PROBE_DELTA: i32 = 120;
/// Hard timeout of a page turn.
pub const HARD_TIMEOUT_MS: u64 = 4000;
/// Semantic samples needed before concluding.
pub const MIN_SEMANTIC_OBSERVATIONS: usize = 3;
/// Consecutive unchanged frames that mean "no movement".
pub const NO_MOVEMENT_FRAMES: usize = 3;
/// Hard cap of full page turns in one direction (no timeout extends it).
pub const MAX_FULL_TURNS: u32 = 12;
/// Hard cap of boundary probes in one direction.
pub const MAX_PROBES: u32 = 4;

/// A wheel input.
#[derive(Debug, Clone, Copy, PartialEq, Eq, Structural)]
pub enum NavInput {
    /// A full page turn.
    Full(ScrollDirection),
    /// A small boundary probe.
    Probe(ScrollDirection),
}

impl NavInput {
    /// Direction of the input.
    pub fn direction(self) -> (r: ScrollDirection)
        ensures
            r == match self {
                NavInput::Full(d) => d,
                NavInput::Probe(d) => d,
            },
    {
        match self {
            NavInput::Full(d) => d,
            NavInput::Probe(d) => d,
        }
    }

    /// A full page turn.
    pub fn is_full(self) -> (r: bool)
        ensures
            r == (self is Full),
    {
        match self {
            NavInput::Full(_) => true,
            NavInput::Probe(_) => false,
        }
    }

    /// A boundary probe.
    pub fn is_probe(self) -> (r: bool)
        ensures
            r == (self is Probe),
    {
        match self {
            NavInput::Full(_) => false,
            NavInput::Probe(_) => true,
        }
    }
}

/// Signed wheel amount of an input: full turns move 600, probes 120; up is
/// positive.
pub open spec fn navigation_delta_spec(input: NavInput) -> int {
    let m: int = match input {
        NavInput::Full(_) => PAGE_WHEEL_DELTA as int,
        NavInput::Probe(_) => PAGE_BOUNDARY_PROBE_DELTA as int,
    };
    let d = match input {
        NavInput::Full(d) => d,
        NavInput::Probe(d) => d,
    };
    match d {
        ScrollDirection::Up => m,
        ScrollDirection::Down => -m,
    }
}

/// Signed wheel amount of an input (up is positive).
pub fn navigation_delta(input: NavInput) -> (r: i32)
    ensures
        r == navigation_delta_spec(input),
{
    let magnitude = match input {
        NavInput::Full(_) => PAGE_WHEEL_DELTA,
        NavInput::Probe(_) => PAGE_BOUNDARY_PROBE_DELTA,
    };
    match input.direction() {
        ScrollDirection::Up => magnitude,
        ScrollDirection::Down => -magnitude,
    }
}

/// Conclusion of one page-turn attempt.
#[derive(Debug, Clone, Copy, PartialEq, Eq, Structural)]
pub enum NavigationOutcome {
    /// The viewport moved as expected.
    Moved,
    /// No movement (after probing: a boundary).
    NoMovement,
    /// Cannot be decided; the caller must stop this direction.
    Uncertain,
}

impl NavigationOutcome {
    /// Stable label of the outcome.
    pub fn label(self) -> (r: &'static str)
        ensures
            r@ == match self {
                NavigationOutcome::Moved => "moved"@,
                NavigationOutcome::NoMovement => "no_movement"@,
                NavigationOutcome::Uncertain => "uncertain"@,
            },
    {
        match self {
            NavigationOutcome::Moved => "moved",
            NavigationOutcome::NoMovement => "no_movement",
            NavigationOutcome::Uncertain => "uncertain",
        }
    }
}

/// Per-direction counters (hard caps, no timeout extends them).
#[derive(Debug, Clone, Default, PartialEq, Eq, Structural)]
pub struct NavigationTracker {
    /// Full page turns sent.
    pub full_turns: u32,
    /// Probes sent.
    pub probes: u32,
    /// Consecutive "no movement" conclusions.
    pub consecutive_no_movement: u32,
}

/// Whether a tracker still allows turning in its direction.
pub open spec fn can_continue_spec(t: NavigationTracker) -> bool {
    t.full_turns < MAX_FULL_TURNS && t.probes < MAX_PROBES
}

/// A boundary is confirmed only after probing, with two no-movement results.
pub open spec fn boundary_spec(t: NavigationTracker) -> bool {
    t.probes > 0 && t.consecutive_no_movement >= 2
}

/// The tracker after recording an input and its conclusion.
pub open spec fn record_spec(t: NavigationTracker, input: NavInput, outcome: NavigationOutcome) -> NavigationTracker {
    let t1 = match input {
        NavInput::Full(_) => NavigationTracker { full_turns: (t.full_turns + 1) as u32, ..t },
        NavInput::Probe(_) => NavigationTracker { probes: (t.probes + 1) as u32, ..t },
    };
    match outcome {
        NavigationOutcome::NoMovement => NavigationTracker {
            consecutive_no_movement: (t1.consecutive_no_movement + 1) as u32,
            ..t1
        },
        NavigationOutcome::Moved => NavigationTracker { consecutive_no_movement: 0, ..t1 },
        NavigationOutcome::Uncertain => t1,
    }
}

impl NavigationTracker {
    /// A tracker with nothing counted.
    pub fn new() -> (r: NavigationTracker)
        ensures
            r == (NavigationTracker { full_turns: 0, probes: 0, consecutive_no_movement: 0 }),
    {
        NavigationTracker { full_turns: 0, probes: 0, consecutive_no_movement: 0 }
    }

    /// Whether turning may go on in this direction.
    pub fn can_continue(&self, direction: ScrollDirection) -> (r: bool)
        ensures
            r == can_continue_spec(*self),
    {
        self.full_turns < MAX_FULL_TURNS && self.probes < MAX_PROBES
    }

    /// Whether the list boundary is confirmed: full turns alone never confirm
    /// it; probes must also show no movement.
    pub fn boundary_confirmed(&self) -> (r: bool)
        ensures
            r == boundary_spec(*self),
    {
        self.probes > 0 && self.consecutive_no_movement >= 2
    }

    /// Records one input and its conclusion. An uncertain conclusion counts as
    /// neither movement nor its absence.
    pub fn record(&mut self, input: NavInput, outcome: &NavigationOutcome)
        requires
            old(self).full_turns < u32::MAX,
            old(self).probes < u32::MAX,
            old(self).consecutive_no_movement < u32::MAX,
        ensures
            *final(self) == record_spec(*old(self), input, *outcome),
    {
        match input {
            NavInput::Full(_) => self.full_turns = self.full_turns + 1,
            NavInput::Probe(_) => self.probes = self.probes + 1,
        }
        match *outcome {
            NavigationOutcome::NoMovement => self.consecutive_no_movement = self.consecutive_no_movement
                + 1,
            NavigationOutcome::Moved => self.consecutive_no_movement = 0,
            NavigationOutcome::Uncertain => {},
        }
    }
}

/// Recording only ever increases the input counters, so once a cap is reached
/// the tracker forbids going on for good.
pub proof fn lemma_caps_are_final(t: NavigationTracker, input: NavInput, outcome: NavigationOutcome)
    requires
        !can_continue_spec(t),
        t.full_turns < u32::MAX,
        t.probes < u32::MAX,
        t.consecutive_no_movement < u32::MAX,
    ensures
        !can_continue_spec(record_spec(t, input, outcome)),
{
}

/// No sequence of full page turns alone confirms a boundary.
pub proof fn lemma_full_turns_never_confirm_boundary(
    t: NavigationTracker,
    d: ScrollDirection,
    outcome: NavigationOutcome,
)
    requires
        t.probes == 0,
        t.full_turns < u32::MAX,
        t.consecutive_no_movement < u32::MAX,
    ensures
        !boundary_spec(record_spec(t, NavInput::Full(d), outcome)),
        record_spec(t, NavInput::Full(d), outcome).probes == 0,
{
}

} // verus!
