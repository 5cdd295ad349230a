//! The sync controller's decisions: its states, the stage budgets and
//! deadlines, the reporter that turns progress into log events, and the
//! plan handed to the selection session.
//!
//! The driving loop (find the window, capture, run the session) performs
//! I/O; when it stops and with what status is decided here (`run_step`), as
//! is the plan of a session and what its end makes of the run.
use vstd::prelude::*;
use crate::loadout_sync::direct_select::session::{SessionPlan, SessionReport};
use crate::loadout_sync::error::LoadoutSyncError;
use crate::loadout_sync::selection::{
    validation_detail, LoadoutItem, LoadoutItemView, LoadoutSyncSelection,
};
use crate::loadout_sync::state::{
    log_line, log_line_spec, status_from_error, LoadoutSyncShared, SnapshotView, SyncEvent,
    SyncLogLevel, SyncStatus, StatusView,
};
use crate::text::{
    decimal, join, push_decimal, push_joined, push_str, string_of, string_views, strings_contain,
};

verus! {

/// State of the sync state machine.
#[derive(Debug, Clone, Copy, PartialEq, Eq, Structural)]
pub enum SyncState {
    Idle,
    Preparing,
    ValidatingSelection,
    FindingGameWindow,
    /// The whole assembly, handed to the selection session.
    DirectSelecting,
    Completed,
    Failed,
    Cancelled,
}

impl SyncState {
    /// Name of the state.
    pub open spec fn name_spec(self) -> Seq<char> {
        match self {
            SyncState::Idle => "Idle"@,
            SyncState::Preparing => "Preparing"@,
            SyncState::ValidatingSelection => "ValidatingSelection"@,
            SyncState::FindingGameWindow => "FindingGameWindow"@,
            SyncState::DirectSelecting => "DirectSelecting"@,
            SyncState::Completed => "Completed"@,
            SyncState::Failed => "Failed"@,
            SyncState::Cancelled => "Cancelled"@,
        }
    }

    /// Name of the state.
    pub fn name(self) -> (r: &'static str)
        ensures
            r@ == self.name_spec(),
    {
        match self {
            SyncState::Idle => "Idle",
            SyncState::Preparing => "Preparing",
            SyncState::ValidatingSelection => "ValidatingSelection",
            SyncState::FindingGameWindow => "FindingGameWindow",
            SyncState::DirectSelecting => "DirectSelecting",
            SyncState::Completed => "Completed",
            SyncState::Failed => "Failed",
            SyncState::Cancelled => "Cancelled",
        }
    }

    /// Completed, failed or cancelled: the run is over.
    pub open spec fn is_terminal_spec(self) -> bool {
        self is Completed || self is Failed || self is Cancelled
    }

    /// Whether the run is over in this state.
    pub fn is_terminal(self) -> (r: bool)
        ensures
            r == self.is_terminal_spec(),
    {
        match self {
            SyncState::Completed | SyncState::Failed | SyncState::Cancelled => true,
            _ => false,
        }
    }
}

/// Poll period of the driving loop, in milliseconds.
pub const POLL_MS: u64 = 80;

/// Budget of a stage: finding the window gets a second, the whole assembly
/// gets the run's total budget, every other stage two seconds.
pub open spec fn stage_timeout_spec(state: SyncState, total_timeout_ms: u64) -> u64 {
    match state {
        SyncState::FindingGameWindow => 1_000,
        SyncState::DirectSelecting => total_timeout_ms,
        _ => 2_000,
    }
}

/// Budget of a stage, in milliseconds.
pub fn stage_timeout_ms(state: SyncState, total_timeout_ms: u64) -> (r: u64)
    ensures
        r == stage_timeout_spec(state, total_timeout_ms),
{
    match state {
        SyncState::FindingGameWindow => 1_000,
        SyncState::DirectSelecting => total_timeout_ms,
        _ => 2_000,
    }
}

/// The states no stage deadline applies to.
pub open spec fn deadline_exempt(state: SyncState) -> bool {
    state is Idle || state.is_terminal_spec()
}

/// What the timing checks before a step decide: over the total budget is a
/// `Total` timeout; past the stage deadline (in a timed state) is a timeout
/// of that stage; otherwise the step may run.
pub open spec fn deadline_verdict(
    state: SyncState,
    now: u64,
    started: u64,
    stage_deadline: u64,
    stage_timeout: u64,
    total_timeout: u64,
) -> Option<(Seq<char>, u64)> {
    let elapsed: int = if now >= started {
        now - started
    } else {
        0
    };
    if elapsed > total_timeout {
        Some(("Total"@, total_timeout))
    } else if now > stage_deadline && !deadline_exempt(state) {
        Some((state.name_spec(), stage_timeout))
    } else {
        None
    }
}

/// The timing checks made before each step of the machine.
pub fn check_deadlines(
    state: SyncState,
    now: u64,
    started: u64,
    stage_deadline: u64,
    stage_timeout: u64,
    total_timeout: u64,
) -> (r: Result<(), LoadoutSyncError>)
    ensures
        match deadline_verdict(state, now, started, stage_deadline, stage_timeout, total_timeout) {
            None => r is Ok,
            Some((stage, ms)) => r matches Err(LoadoutSyncError::Timeout { stage: s, ms: m }) && s@
                == stage && m == ms,
        },
{
    let elapsed: u64 = if now >= started {
        now - started
    } else {
        0
    };
    if elapsed > total_timeout {
        return Err(LoadoutSyncError::Timeout { stage: "Total", ms: total_timeout });
    }
    let exempt = match state {
        SyncState::Idle | SyncState::Completed | SyncState::Failed | SyncState::Cancelled => true,
        _ => false,
    };
    if now > stage_deadline && !exempt {
        return Err(LoadoutSyncError::Timeout { stage: state.name(), ms: stage_timeout });
    }
    Ok(())
}

/// Hard cap on the iterations of the driving loop:
/// `max(total / POLL_MS, 64) * 8`.
pub open spec fn max_iterations_spec(total_timeout_ms: u64) -> int {
    let polls: int = (total_timeout_ms / POLL_MS) as int;
    (if polls >= 64 {
        polls
    } else {
        64
    }) * 8
}

/// Hard cap on the iterations of the driving loop.
pub fn max_iterations(total_timeout_ms: u64) -> (r: u64)
    ensures
        r == max_iterations_spec(total_timeout_ms),
{
    let polls = total_timeout_ms / POLL_MS;
    let base: u64 = if polls >= 64 {
        polls
    } else {
        64
    };
    base * 8
}

/// Wall-clock budget of the driving loop: three total budgets and ten
/// seconds.
pub fn wall_clock_budget_ms(total_timeout_ms: u64) -> (r: u64)
    requires
        total_timeout_ms * 3 + 10_000 <= u64::MAX,
    ensures
        r == total_timeout_ms * 3 + 10_000,
{
    total_timeout_ms * 3 + 10_000
}

/// Status a run ends with when the machine stops in `state`.
pub open spec fn terminal_status_spec(state: SyncState) -> StatusView {
    match state {
        SyncState::Completed => StatusView::Succeeded,
        SyncState::Cancelled => StatusView::Cancelled,
        _ => StatusView::Failed { code: "UnexpectedState"@, message: "自动装配失败：内部状态异常。"@ },
    }
}

/// Status a run ends with when the machine stops in `state`.
pub fn terminal_status(state: SyncState) -> (r: SyncStatus)
    ensures
        r@ == terminal_status_spec(state),
{
    match state {
        SyncState::Completed => SyncStatus::Succeeded,
        SyncState::Cancelled => SyncStatus::Cancelled,
        _ => {
            let mut code = String::new();
            push_str(&mut code, "UnexpectedState");
            let mut message = String::new();
            push_str(&mut message, "自动装配失败：内部状态异常。");
            SyncStatus::Failed { code, message }
        },
    }
}

/// The state the machine records after a step failed with `err`.
pub fn state_after_error(err: &LoadoutSyncError) -> (r: SyncState)
    ensures
        r == (if err is Cancelled {
            SyncState::Cancelled
        } else {
            SyncState::Failed
        }),
{
    if err.is_cancelled() {
        SyncState::Cancelled
    } else {
        SyncState::Failed
    }
}

/// The state machine's own record: current state, audit trail and the
/// timing of the current stage.
pub struct MachineCore {
    state: SyncState,
    transitions: Vec<SyncState>,
    total_timeout_ms: u64,
    stage_timeout_ms: u64,
    stage_deadline_ms: u64,
    deadline_armed: bool,
    started_ms: Option<u64>,
}

/// The order a run goes through on its way to completion: the window is
/// looked for only right after validation, the selection starts only right
/// after the window was found, and completion comes only right after the
/// selection.
pub open spec fn path_law(t: Seq<SyncState>) -> bool {
    &&& t.len() > 0 ==> step_allowed(SyncState::Idle, t[0])
    &&& forall|i: int, j: int|
        0 <= i && j == i + 1 && j < t.len() ==> step_allowed(#[trigger] t[i], #[trigger] t[j])
}

/// Entering `next` from `cur` keeps the order of `path_law`.
pub open spec fn step_allowed(cur: SyncState, next: SyncState) -> bool {
    &&& next is FindingGameWindow ==> cur is ValidatingSelection
    &&& next is DirectSelecting ==> cur is FindingGameWindow
    &&& next is Completed ==> cur is DirectSelecting
}

impl MachineCore {
    /// The current state is the last one entered (`Idle` before any), and
    /// the trail keeps the order of `path_law`.
    pub closed spec fn wf(&self) -> bool {
        &&& self.transitions@.len() == 0 ==> self.state is Idle
        &&& self.transitions@.len() > 0 ==> self.transitions@.last() == self.state
        &&& path_law(self.transitions@)
    }

    /// A machine in `Completed` got there through validation, the window
    /// and the selection, in that order and with nothing in between.
    pub proof fn lemma_completed_path(&self)
        requires
            self.wf(),
            self.state_spec() is Completed,
        ensures
            self.trail().len() >= 4,
            self.trail()[self.trail().len() - 1] is Completed,
            self.trail()[self.trail().len() - 2] is DirectSelecting,
            self.trail()[self.trail().len() - 3] is FindingGameWindow,
            self.trail()[self.trail().len() - 4] is ValidatingSelection,
    {
        let t = self.transitions@;
        let n = t.len() as int;
        assert(t[n - 1] is Completed);
        if n >= 2 {
            assert(step_allowed(t[n - 2], t[n - 1]));
        }
        if n >= 3 {
            assert(step_allowed(t[n - 3], t[n - 2]));
        }
        if n >= 4 {
            assert(step_allowed(t[n - 4], t[n - 3]));
        }
    }

    pub closed spec fn state_spec(&self) -> SyncState {
        self.state
    }

    /// Every state entered, in order.
    pub closed spec fn trail(&self) -> Seq<SyncState> {
        self.transitions@
    }

    pub closed spec fn total_spec(&self) -> u64 {
        self.total_timeout_ms
    }

    /// Budget of the current stage.
    pub closed spec fn stage_timeout_spec(&self) -> u64 {
        self.stage_timeout_ms
    }

    /// Deadline of the current stage, once armed.
    pub closed spec fn deadline_spec(&self) -> Option<u64> {
        if self.deadline_armed {
            Some(self.stage_deadline_ms)
        } else {
            None
        }
    }

    /// Clock reading of the first step.
    pub closed spec fn started_spec(&self) -> Option<u64> {
        self.started_ms
    }

    /// A machine in `Idle`, with nothing recorded.
    pub fn new(total_timeout_ms: u64) -> (r: Self)
        ensures
            r.wf(),
            r.state_spec() == SyncState::Idle,
            r.trail().len() == 0,
            r.total_spec() == total_timeout_ms,
            r.deadline_spec() is None,
            r.started_spec() is None,
    {
        MachineCore {
            state: SyncState::Idle,
            transitions: Vec::new(),
            total_timeout_ms,
            stage_timeout_ms: 0,
            stage_deadline_ms: 0,
            deadline_armed: false,
            started_ms: None,
        }
    }

    /// Current state.
    pub fn state(&self) -> (r: SyncState)
        ensures
            r == self.state_spec(),
    {
        self.state
    }

    /// Audit trail of the states entered.
    pub fn transitions(&self) -> (r: &Vec<SyncState>)
        ensures
            r@ == self.trail(),
    {
        &self.transitions
    }

    /// Starts a run: enters `Preparing`.
    pub fn start(&mut self)
        requires
            old(self).wf(),
        ensures
            final(self).wf(),
            final(self).state_spec() == SyncState::Preparing,
            final(self).trail() == old(self).trail().push(SyncState::Preparing),
            final(self).stage_timeout_spec() == stage_timeout_spec(
                SyncState::Preparing,
                old(self).total_spec(),
            ),
            final(self).deadline_spec() is None,
            final(self).total_spec() == old(self).total_spec(),
            final(self).started_spec() == old(self).started_spec(),
    {
        self.goto(SyncState::Preparing);
    }

    /// Enters `state`: recorded in the trail, with its stage budget and a
    /// deadline to be armed at the next step.
    fn goto(&mut self, state: SyncState)
        requires
            old(self).wf(),
            step_allowed(old(self).state_spec(), state),
        ensures
            final(self).wf(),
            final(self).state_spec() == state,
            final(self).trail() == old(self).trail().push(state),
            final(self).stage_timeout_spec() == stage_timeout_spec(state, old(self).total_spec()),
            final(self).deadline_spec() is None,
            final(self).total_spec() == old(self).total_spec(),
            final(self).started_spec() == old(self).started_spec(),
    {
        let ghost t0 = self.transitions@;
        self.transitions.push(state);
        self.state = state;
        self.stage_timeout_ms = stage_timeout_ms(state, self.total_timeout_ms);
        self.deadline_armed = false;
        proof {
            let t = self.transitions@;
            assert forall|i: int, j: int| 0 <= i && j == i + 1 && j < t.len() implies step_allowed(
                #[trigger] t[i],
                #[trigger] t[j],
            ) by {
                assert(t[i] == t0[i]);
                if j < t0.len() {
                    assert(t[j] == t0[j]);
                } else {
                    assert(t[i] == t0.last());
                }
            }
            if t0.len() == 0 {
                assert(t[0] == state);
            } else {
                assert(t[0] == t0[0]);
            }
        }
    }

    /// The timing part of a step at clock reading `now`: arms the stage
    /// deadline if needed, records the start, and checks both budgets.
    pub fn tick(&mut self, now: u64) -> (r: Result<(), LoadoutSyncError>)
        requires
            old(self).deadline_spec() is None ==> now + old(self).stage_timeout_spec() <= u64::MAX,
        ensures
            old(self).wf() ==> final(self).wf(),
            final(self).deadline_spec() == Some(
                match old(self).deadline_spec() {
                    Some(d) => d,
                    None => (now + old(self).stage_timeout_spec()) as u64,
                },
            ),
            final(self).started_spec() == Some(
                match old(self).started_spec() {
                    Some(s) => s,
                    None => now,
                },
            ),
            final(self).state_spec() == old(self).state_spec(),
            final(self).trail() == old(self).trail(),
            final(self).total_spec() == old(self).total_spec(),
            final(self).stage_timeout_spec() == old(self).stage_timeout_spec(),
            match deadline_verdict(
                old(self).state_spec(),
                now,
                final(self).started_spec().unwrap(),
                final(self).deadline_spec().unwrap(),
                old(self).stage_timeout_spec(),
                old(self).total_spec(),
            ) {
                None => r is Ok,
                Some((stage, ms)) => r matches Err(LoadoutSyncError::Timeout { stage: s, ms: m })
                    && s@ == stage && m == ms,
            },
    {
        if !self.deadline_armed {
            self.stage_deadline_ms = now + self.stage_timeout_ms;
            self.deadline_armed = true;
        }
        let started = match self.started_ms {
            Some(s) => s,
            None => now,
        };
        self.started_ms = Some(started);
        check_deadlines(
            self.state,
            now,
            started,
            self.stage_deadline_ms,
            self.stage_timeout_ms,
            self.total_timeout_ms,
        )
    }
}

/// The outside work a step of the machine needs, once the machine's own part
/// of the step is done.
#[derive(Debug, PartialEq, Eq)]
pub enum StepWork {
    /// Nothing: the step is complete.
    Nothing,
    /// Find the game window and report whether it is in the foreground
    /// (`window_found`).
    FindWindow,
    /// Run the selection session and report its end
    /// (`direct_select_verdict`).
    DirectSelect,
}

/// The verdict of the timing checks of a step at clock reading `now`.
pub open spec fn tick_verdict(c: MachineCore, now: u64) -> Option<(Seq<char>, u64)> {
    deadline_verdict(
        c.state_spec(),
        now,
        match c.started_spec() {
            Some(t) => t,
            None => now,
        },
        match c.deadline_spec() {
            Some(d) => d,
            None => (now + c.stage_timeout_spec()) as u64,
        },
        c.stage_timeout_spec(),
        c.total_spec(),
    )
}

/// The machine's own part of a step at clock reading `now`: a cancel stops
/// it, then the deadlines are checked (`tick`); preparing moves on to
/// validation, and validation checks the selection (refusing it as it is,
/// never guessing) before the window is looked for.
pub fn advance_begin(
    core: &mut MachineCore,
    cancelled: bool,
    now: u64,
    selection: &LoadoutSyncSelection,
) -> (r: Result<StepWork, LoadoutSyncError>)
    requires
        old(core).wf(),
        old(core).deadline_spec() is None ==> now + old(core).stage_timeout_spec() <= u64::MAX,
    ensures
        final(core).wf(),
        final(core).total_spec() == old(core).total_spec(),
        cancelled ==> r == Err::<StepWork, LoadoutSyncError>(LoadoutSyncError::Cancelled)
            && final(core).state_spec() == old(core).state_spec() && final(core).trail()
            == old(core).trail(),
        !cancelled ==> match tick_verdict(*old(core), now) {
            Some((stage, ms)) => r matches Err(LoadoutSyncError::Timeout { stage: st, ms: m })
                && st@ == stage && m == ms,
            None => match old(core).state_spec() {
                SyncState::Idle | SyncState::Preparing => r == Ok::<StepWork, LoadoutSyncError>(
                    StepWork::Nothing,
                ) && final(core).state_spec() == SyncState::ValidatingSelection,
                SyncState::ValidatingSelection => match validation_detail(selection@) {
                    None => r == Ok::<StepWork, LoadoutSyncError>(StepWork::Nothing)
                        && final(core).state_spec() == SyncState::FindingGameWindow,
                    Some(d) => (r matches Err(LoadoutSyncError::InvalidSelection { detail })
                        && detail@ == d) && final(core).state_spec() == old(core).state_spec(),
                },
                SyncState::FindingGameWindow => r == Ok::<StepWork, LoadoutSyncError>(
                    StepWork::FindWindow,
                ) && final(core).state_spec() == old(core).state_spec(),
                SyncState::DirectSelecting => r == Ok::<StepWork, LoadoutSyncError>(
                    StepWork::DirectSelect,
                ) && final(core).state_spec() == old(core).state_spec(),
                _ => r == Ok::<StepWork, LoadoutSyncError>(StepWork::Nothing)
                    && final(core).state_spec() == old(core).state_spec(),
            },
        },
        final(core).state_spec() != old(core).state_spec() ==> final(core).trail() == old(
            core,
        ).trail().push(final(core).state_spec()),
        final(core).state_spec() == old(core).state_spec() ==> final(core).trail() == old(
            core,
        ).trail(),
{
    if cancelled {
        return Err(LoadoutSyncError::Cancelled);
    }
    match core.tick(now) {
        Ok(()) => {},
        Err(e) => return Err(e),
    }
    match core.state() {
        SyncState::Idle | SyncState::Preparing => {
            core.goto(SyncState::ValidatingSelection);
            Ok(StepWork::Nothing)
        },
        SyncState::ValidatingSelection => {
            match selection.validate() {
                Ok(()) => {},
                Err(e) => return Err(e),
            }
            core.goto(SyncState::FindingGameWindow);
            Ok(StepWork::Nothing)
        },
        SyncState::FindingGameWindow => Ok(StepWork::FindWindow),
        SyncState::DirectSelecting => Ok(StepWork::DirectSelect),
        _ => Ok(StepWork::Nothing),
    }
}

/// What finding the game window makes of the step: the window must be in
/// the foreground (focus is never taken), then the selection starts.
/// `found` is the window search's result: whether the window is in the
/// foreground, or the search's error.
pub fn window_found(core: &mut MachineCore, found: Result<bool, LoadoutSyncError>) -> (r: Result<
    (),
    LoadoutSyncError,
>)
    requires
        old(core).wf(),
        old(core).state_spec() is FindingGameWindow,
    ensures
        final(core).wf(),
        final(core).total_spec() == old(core).total_spec(),
        match found {
            Ok(true) => r is Ok && final(core).state_spec() == SyncState::DirectSelecting
                && final(core).trail() == old(core).trail().push(SyncState::DirectSelecting),
            Ok(false) => r == Err::<(), LoadoutSyncError>(LoadoutSyncError::GameNotForeground)
                && final(core).state_spec() == old(core).state_spec() && final(core).trail()
                == old(core).trail(),
            Err(e) => r == Err::<(), LoadoutSyncError>(e) && final(core).state_spec() == old(
                core,
            ).state_spec() && final(core).trail() == old(core).trail(),
        },
{
    match found {
        Ok(true) => {
            core.goto(SyncState::DirectSelecting);
            Ok(())
        },
        Ok(false) => Err(LoadoutSyncError::GameNotForeground),
        Err(e) => Err(e),
    }
}

/// What the last step of the machine did, as the driving loop saw it.
#[derive(Debug)]
pub enum StepOutcome {
    /// No step yet in this run.
    Begin,
    /// `advance` ran: it succeeded, or failed with this error.
    Advanced(Result<(), LoadoutSyncError>),
}

/// What the driving loop does next.
#[derive(Debug, PartialEq)]
pub enum RunAction {
    /// Run the next step of the machine.
    Advance,
    /// Stop: release every key and button if `release_input`, then publish
    /// `status`.
    Stop { status: SyncStatus, release_input: bool },
}

/// The view of a loop action.
pub enum RunActionView {
    Advance,
    Stop(StatusView, bool),
}

impl View for RunAction {
    type V = RunActionView;

    open spec fn view(&self) -> RunActionView {
        match self {
            RunAction::Advance => RunActionView::Advance,
            RunAction::Stop { status, release_input } => RunActionView::Stop(
                status@,
                *release_input,
            ),
        }
    }
}

/// The status a failed step ends the run with.
pub open spec fn status_of_error(e: LoadoutSyncError) -> StatusView {
    if e is Cancelled {
        StatusView::Cancelled
    } else {
        StatusView::Failed { code: e.code_spec(), message: e.message_spec() }
    }
}

/// The detail of the error that stops a run past its iteration cap.
pub open spec fn iteration_cap_detail(max: int) -> Seq<char> {
    "状态机迭代超过上限（"@ + decimal(max as nat) + "）"@
}

/// A status the run is over with.
pub open spec fn is_final_status(s: StatusView) -> bool {
    s is Succeeded || s is Failed || s is Cancelled
}

/// The checks before a step: past the iteration cap, past the wall-clock
/// deadline, or already in a final state, the run stops; otherwise the
/// machine advances.
pub open spec fn run_check_spec(
    state: SyncState,
    total_timeout_ms: u64,
    iterations: u64,
    wall_now_ms: u64,
    wall_deadline_ms: u64,
) -> RunActionView {
    if iterations > max_iterations_spec(total_timeout_ms) {
        RunActionView::Stop(
            StatusView::Failed {
                code: "UnexpectedState"@,
                message: "自动装配失败：内部状态异常（"@ + iteration_cap_detail(
                    max_iterations_spec(total_timeout_ms),
                ) + "）。"@,
            },
            true,
        )
    } else if wall_now_ms > wall_deadline_ms {
        RunActionView::Stop(
            StatusView::Failed {
                code: "Timeout"@,
                message: "自动装配失败：阶段「"@ + "WallClock"@ + "」超时（"@ + decimal(
                    (total_timeout_ms * 3 + 10_000) as nat,
                ) + " ms）。"@,
            },
            true,
        )
    } else if state.is_terminal_spec() {
        RunActionView::Stop(terminal_status_spec(state), true)
    } else {
        RunActionView::Advance
    }
}

/// One decision of the driving loop, at its `iterations`-th pass, with the
/// wall clock at `wall_now_ms`, after the last step did `outcome`.
///
/// A failed step moves the machine to `Cancelled` or `Failed` (recorded in
/// the trail) and stops with the error's status; otherwise the checks of
/// `run_check_spec` decide. Every stop releases the input and ends with a
/// final status; past either cap the run stops.
pub fn run_step(
    core: &mut MachineCore,
    iterations: u64,
    wall_now_ms: u64,
    wall_deadline_ms: u64,
    outcome: StepOutcome,
) -> (a: RunAction)
    requires
        old(core).wf(),
        old(core).total_spec() * 3 + 10_000 <= u64::MAX,
    ensures
        final(core).wf(),
        a matches RunAction::Stop { status: SyncStatus::Succeeded, .. } ==> final(core).state_spec()
            is Completed,
        match outcome {
            StepOutcome::Advanced(Err(e)) => {
                &&& final(core).state_spec() == (if e is Cancelled {
                    SyncState::Cancelled
                } else {
                    SyncState::Failed
                })
                &&& final(core).trail() == old(core).trail().push(final(core).state_spec())
                &&& a@ == RunActionView::Stop(status_of_error(e), true)
            },
            _ => {
                &&& final(core).state_spec() == old(core).state_spec()
                &&& final(core).trail() == old(core).trail()
                &&& a@ == run_check_spec(
                    old(core).state_spec(),
                    old(core).total_spec(),
                    iterations,
                    wall_now_ms,
                    wall_deadline_ms,
                )
            },
        },
        final(core).total_spec() == old(core).total_spec(),
        a is Stop ==> a->release_input,
        a matches RunAction::Stop { status, .. } ==> is_final_status(status@),
        iterations > max_iterations_spec(old(core).total_spec()) ==> a is Stop,
        wall_now_ms > wall_deadline_ms ==> a is Stop,
        a is Advance ==> !final(core).state_spec().is_terminal_spec(),
{
    match outcome {
        StepOutcome::Advanced(Err(err)) => {
            let next = state_after_error(&err);
            core.goto(next);
            let status = status_from_error(&err);
            RunAction::Stop { status, release_input: true }
        },
        _ => {
            let total = core.total_timeout_ms;
            let max = max_iterations(total);
            if iterations > max {
                let mut detail = String::new();
                push_str(&mut detail, "状态机迭代超过上限（");
                push_decimal(&mut detail, max);
                push_str(&mut detail, "）");
                let err = LoadoutSyncError::UnexpectedState { detail };
                let status = status_from_error(&err);
                return RunAction::Stop { status, release_input: true };
            }
            if wall_now_ms > wall_deadline_ms {
                let err = LoadoutSyncError::Timeout {
                    stage: "WallClock",
                    ms: wall_clock_budget_ms(total),
                };
                let status = status_from_error(&err);
                return RunAction::Stop { status, release_input: true };
            }
            if core.state.is_terminal() {
                return RunAction::Stop { status: terminal_status(core.state), release_input: true };
            }
            RunAction::Advance
        },
    }
}

/// Keeps the first occurrence of every id, in order.
pub open spec fn first_occurrences(ids: Seq<Seq<char>>) -> Seq<Seq<char>>
    decreases ids.len(),
{
    if ids.len() == 0 {
        Seq::empty()
    } else {
        let rest = first_occurrences(ids.drop_last());
        if rest.contains(ids.last()) {
            rest
        } else {
            rest.push(ids.last())
        }
    }
}

/// The plan of a session: the stratagem ids without repeats (first
/// occurrence kept) and the booster id.
pub fn session_plan(stratagem_ids: &[String], booster: Option<String>) -> (r: SessionPlan)
    ensures
        string_views(r.stratagems@) == first_occurrences(string_views(stratagem_ids@)),
        r.booster == booster,
{
    let ghost ids = string_views(stratagem_ids@);
    let mut out: Vec<String> = Vec::new();
    let mut i: usize = 0;
    while i < stratagem_ids.len()
        invariant
            i <= stratagem_ids@.len(),
            ids == string_views(stratagem_ids@),
            string_views(out@) == first_occurrences(ids.take(i as int)),
        decreases stratagem_ids@.len() - i,
    {
        proof {
            assert(ids.take(i + 1).drop_last() =~= ids.take(i as int));
            assert(ids.take(i + 1).last() == stratagem_ids@[i as int]@);
        }
        let seen = strings_contain(out.as_slice(), stratagem_ids[i].as_str());
        if !seen {
            let ghost before = out@;
            out.push(stratagem_ids[i].clone());
            assert(string_views(out@) =~= string_views(before).push(stratagem_ids@[i as int]@));
        }
        i = i + 1;
    }
    assert(ids.take(stratagem_ids@.len() as int) =~= ids);
    SessionPlan { stratagems: out, booster }
}

/// A preset entry with the catalog id its icon resolved to, if any.
#[derive(Debug, Clone)]
pub struct ResolvedItem {
    pub name: String,
    pub icon: String,
    pub catalog_id: Option<String>,
}

/// Index of the first entry whose icon did not resolve.
pub open spec fn first_unresolved(items: Seq<ResolvedItem>) -> Option<int>
    decreases items.len(),
{
    if items.len() == 0 {
        None
    } else {
        match first_unresolved(items.drop_last()) {
            Some(i) => Some(i),
            None => if items.last().catalog_id is None {
                Some(items.len() - 1)
            } else {
                None
            },
        }
    }
}

/// The catalog ids of resolved entries.
pub open spec fn resolved_ids(items: Seq<ResolvedItem>) -> Seq<Seq<char>> {
    items.map_values(|x: ResolvedItem| x.catalog_id.unwrap()@)
}

/// The reason a stratagem that is not in the catalog refuses the run.
pub open spec fn unresolved_detail(x: ResolvedItem) -> Seq<char> {
    "参考目录里没有 "@ + x.name@ + "（icon="@ + x.icon@ + "），direct_select 无法装配"@
}

/// The reason a booster that is not in the catalog refuses the run.
pub open spec fn unresolved_booster_detail(x: ResolvedItem) -> Seq<char> {
    "参考目录里没有 Booster "@ + x.name@ + "（icon="@ + x.icon@ + "）"@
}

/// The session plan of a preset whose icons were looked up in the catalog:
/// never a guess, so the first stratagem (in preset order), then the
/// booster, that did not resolve refuses the whole run; otherwise the
/// stratagem ids without repeats and the booster id.
pub fn plan_from_resolved(stratagems: &[ResolvedItem], booster: Option<&ResolvedItem>) -> (r: Result<
    SessionPlan,
    LoadoutSyncError,
>)
    ensures
        match first_unresolved(stratagems@) {
            Some(i) => r matches Err(LoadoutSyncError::UnexpectedState { detail }) && detail@
                == unresolved_detail(stratagems@[i]),
            None => match booster {
                Some(b) if b.catalog_id is None => r matches Err(
                    LoadoutSyncError::UnexpectedState { detail },
                ) && detail@ == unresolved_booster_detail(*b),
                _ => r matches Ok(plan) && string_views(plan.stratagems@) == first_occurrences(
                    resolved_ids(stratagems@),
                ) && match plan.booster {
                    Some(x) => booster is Some && x@ == booster.unwrap().catalog_id.unwrap()@,
                    None => booster is None,
                },
            },
        },
{
    let mut ids: Vec<String> = Vec::new();
    let mut i: usize = 0;
    while i < stratagems.len()
        invariant
            i <= stratagems@.len(),
            first_unresolved(stratagems@.take(i as int)) is None,
            string_views(ids@) == resolved_ids(stratagems@.take(i as int)),
        decreases stratagems@.len() - i,
    {
        assert(stratagems@.take(i + 1).drop_last() =~= stratagems@.take(i as int));
        match &stratagems[i].catalog_id {
            None => {
                assert(first_unresolved(stratagems@.take(i + 1)) == Some(i as int));
                assert(first_unresolved(stratagems@) == Some(i as int)) by {
                    lemma_first_unresolved_prefix(stratagems@, i as int + 1);
                }
                let x = &stratagems[i];
                let mut detail = String::new();
                push_str(&mut detail, "参考目录里没有 ");
                push_str(&mut detail, x.name.as_str());
                push_str(&mut detail, "（icon=");
                push_str(&mut detail, x.icon.as_str());
                push_str(&mut detail, "），direct_select 无法装配");
                return Err(LoadoutSyncError::UnexpectedState { detail });
            },
            Some(id) => {
                let ghost before = ids@;
                ids.push(string_of(id.as_str()));
                assert(string_views(ids@) =~= string_views(before).push(id@));
                assert(resolved_ids(stratagems@.take(i + 1)) =~= resolved_ids(
                    stratagems@.take(i as int),
                ).push(id@));
            },
        }
        i = i + 1;
    }
    assert(stratagems@.take(stratagems@.len() as int) =~= stratagems@);
    let booster_id = match booster {
        Some(b) => match &b.catalog_id {
            None => {
                let mut detail = String::new();
                push_str(&mut detail, "参考目录里没有 Booster ");
                push_str(&mut detail, b.name.as_str());
                push_str(&mut detail, "（icon=");
                push_str(&mut detail, b.icon.as_str());
                push_str(&mut detail, "）");
                return Err(LoadoutSyncError::UnexpectedState { detail });
            },
            Some(id) => Some(string_of(id.as_str())),
        },
        None => None,
    };
    let plan = session_plan(ids.as_slice(), booster_id);
    Ok(plan)
}

proof fn lemma_first_unresolved_prefix(items: Seq<ResolvedItem>, n: int)
    requires
        0 <= n <= items.len(),
        first_unresolved(items.take(n)) is Some,
    ensures
        first_unresolved(items) == first_unresolved(items.take(n)),
    decreases items.len() - n,
{
    if n < items.len() {
        assert(items.take(n + 1).drop_last() =~= items.take(n));
        lemma_first_unresolved_prefix(items, n + 1);
    } else {
        assert(items.take(n) =~= items);
    }
}

/// What the end of the selection session makes of the run: a finished
/// session whose report is a success completes the machine; a finished one
/// that is not refuses with the counts and the failures; a stopped one
/// refuses with its reason.
pub fn direct_select_verdict(
    core: &mut MachineCore,
    finished: &Result<(), String>,
    report: &SessionReport,
) -> (r: Result<(), LoadoutSyncError>)
    requires
        old(core).wf(),
        old(core).state_spec() is DirectSelecting,
    ensures
        final(core).wf(),
        final(core).total_spec() == old(core).total_spec(),
        match finished {
            Ok(()) => if report.failures@.len() == 0 && report.selected@.len() == report.expected {
                &&& r is Ok
                &&& final(core).state_spec() == SyncState::Completed
                &&& final(core).trail() == old(core).trail().push(SyncState::Completed)
            } else {
                &&& r matches Err(LoadoutSyncError::UnexpectedState { detail }) && detail@
                    == "direct_select 未完成（已确认 "@ + decimal(report.selected@.len()) + "/"@
                    + decimal(report.expected as nat) + "）: "@ + join(
                    string_views(report.failures@),
                    " / "@,
                )
                &&& final(core).state_spec() == old(core).state_spec()
                &&& final(core).trail() == old(core).trail()
            },
            Err(d) => {
                &&& r matches Err(LoadoutSyncError::UnexpectedState { detail }) && detail@
                    == "direct_select 安全停止: "@ + d@
                &&& final(core).state_spec() == old(core).state_spec()
                &&& final(core).trail() == old(core).trail()
            },
        },
{
    match finished {
        Ok(()) => {
            if report.is_success() {
                core.goto(SyncState::Completed);
                Ok(())
            } else {
                let mut detail = String::new();
                push_str(&mut detail, "direct_select 未完成（已确认 ");
                push_decimal(&mut detail, report.selected.len() as u64);
                push_str(&mut detail, "/");
                push_decimal(&mut detail, report.expected as u64);
                push_str(&mut detail, "）: ");
                push_joined(&mut detail, report.failures.as_slice(), " / ");
                Err(LoadoutSyncError::UnexpectedState { detail })
            }
        },
        Err(d) => {
            let mut detail = String::new();
            push_str(&mut detail, "direct_select 安全停止: ");
            push_str(&mut detail, d.as_str());
            Err(LoadoutSyncError::UnexpectedState { detail })
        },
    }
}

/// The log lines that list the selection before it is validated.
pub open spec fn selection_lines_spec(stratagems: Seq<Option<LoadoutItemView>>, booster: Option<
    LoadoutItemView,
>) -> Seq<Seq<char>>
    decreases stratagems.len(),
{
    if stratagems.len() == 0 {
        seq![
            match booster {
                Some(b) => "Booster: "@ + b.name,
                None => "Booster: (未配置，将跳过)"@,
            },
        ]
    } else {
        let n = stratagems.len();
        let head = selection_lines_spec(stratagems.drop_last(), booster).drop_last();
        let line = "S"@ + decimal(n as nat) + match stratagems.last() {
            Some(item) => ": "@ + item.name,
            None => ": (未配置)"@,
        };
        head.push(line).push(
            match booster {
                Some(b) => "Booster: "@ + b.name,
                None => "Booster: (未配置，将跳过)"@,
            },
        )
    }
}

/// The line of stratagem slot `index` (1-based number in the text).
fn stratagem_line(index: usize, item: &Option<LoadoutItem>) -> (r: String)
    requires
        index < u64::MAX,
    ensures
        r@ == "S"@ + decimal((index + 1) as nat) + match item {
            Some(it) => ": "@ + it.name@,
            None => ": (未配置)"@,
        },
{
    let mut s = String::new();
    push_str(&mut s, "S");
    push_decimal(&mut s, (index as u64) + 1);
    match item {
        Some(it) => {
            push_str(&mut s, ": ");
            push_str(&mut s, it.name.as_str());
        },
        None => push_str(&mut s, ": (未配置)"),
    }
    s
}

/// The lines that list a selection: one per stratagem slot, then the
/// booster.
pub fn selection_lines(selection: &LoadoutSyncSelection) -> (r: Vec<String>)
    ensures
        string_views(r@) == selection_lines_spec(selection@.stratagems, selection@.booster),
{
    let ghost st = selection@.stratagems;
    let ghost bl = match selection@.booster {
        Some(b) => "Booster: "@ + b.name,
        None => "Booster: (未配置，将跳过)"@,
    };
    let mut out: Vec<String> = Vec::new();
    let mut i: usize = 0;
    while i < selection.stratagems.len()
        invariant
            i <= st.len(),
            st == selection@.stratagems,
            st.len() == selection.stratagems@.len(),
            forall|k: int|
                0 <= k < st.len() ==> #[trigger] st[k] == match selection.stratagems@[k] {
                    Some(it) => Some(it@),
                    None => None::<LoadoutItemView>,
                },
            bl == match selection@.booster {
                Some(b) => "Booster: "@ + b.name,
                None => "Booster: (未配置，将跳过)"@,
            },
            string_views(out@).push(bl) == selection_lines_spec(st.take(i as int), selection@.booster),
        decreases st.len() - i,
    {
        let line = stratagem_line(i, &selection.stratagems[i]);
        let ghost before = out@;
        out.push(line);
        proof {
            assert(st.take(i + 1).drop_last() =~= st.take(i as int));
            assert(st.take(i + 1).last() == st[i as int]);
            assert(string_views(before).push(bl).drop_last() =~= string_views(before));
            assert(string_views(out@) =~= string_views(before).push(line@));
        }
        i = i + 1;
    }
    let booster_line = match &selection.booster {
        Some(b) => {
            let mut s = String::new();
            push_str(&mut s, "Booster: ");
            push_str(&mut s, b.name.as_str());
            s
        },
        None => {
            let mut s = String::new();
            push_str(&mut s, "Booster: (未配置，将跳过)");
            s
        },
    };
    let ghost before = out@;
    out.push(booster_line);
    assert(st.take(st.len() as int) =~= st);
    assert(string_views(out@) =~= string_views(before).push(bl));
    out
}

/// Progress reporting of a run: the shared state it updates and the events
/// waiting to be delivered to the interface.
pub struct Reporter {
    shared: LoadoutSyncShared,
    outbox: Vec<SyncEvent>,
}

/// The view of an event: its level and text, or the final status.
pub enum EventView {
    Log(SyncLogLevel, Seq<char>),
    Finished(StatusView),
}

/// Views of a list of events.
pub open spec fn event_views(v: Seq<SyncEvent>) -> Seq<EventView> {
    v.map_values(
        |e: SyncEvent|
            match e {
                SyncEvent::Log(level, text) => EventView::Log(level, text@),
                SyncEvent::Finished(status) => EventView::Finished(status@),
            },
    )
}

impl Reporter {
    /// The shared state.
    pub closed spec fn shared_spec(&self) -> LoadoutSyncShared {
        self.shared
    }

    /// The events not yet delivered, oldest first.
    pub closed spec fn pending(&self) -> Seq<EventView> {
        event_views(self.outbox@)
    }

    /// A reporter over `shared`, with nothing pending.
    pub fn new(shared: LoadoutSyncShared) -> (r: Self)
        ensures
            r.shared_spec() == shared,
            r.pending().len() == 0,
    {
        Reporter { shared, outbox: Vec::new() }
    }

    /// Queues a log line in the common format.
    pub fn log(&mut self, level: SyncLogLevel, msg: &str)
        ensures
            final(self).pending() == old(self).pending().push(
                EventView::Log(level, log_line_spec(msg@)),
            ),
            final(self).shared_spec() == old(self).shared_spec(),
    {
        let ghost before = self.outbox@;
        self.outbox.push(SyncEvent::Log(level, log_line(msg)));
        assert(event_views(self.outbox@) =~= event_views(before).push(
            EventView::Log(level, log_line_spec(msg@)),
        ));
    }

    /// Queues an information line.
    pub fn info(&mut self, msg: &str)
        ensures
            final(self).pending() == old(self).pending().push(
                EventView::Log(SyncLogLevel::Info, log_line_spec(msg@)),
            ),
            final(self).shared_spec() == old(self).shared_spec(),
    {
        self.log(SyncLogLevel::Info, msg);
    }

    /// Queues a warning line.
    pub fn warn(&mut self, msg: &str)
        ensures
            final(self).pending() == old(self).pending().push(
                EventView::Log(SyncLogLevel::Warn, log_line_spec(msg@)),
            ),
            final(self).shared_spec() == old(self).shared_spec(),
    {
        self.log(SyncLogLevel::Warn, msg);
    }

    /// Queues an error line.
    pub fn error(&mut self, msg: &str)
        ensures
            final(self).pending() == old(self).pending().push(
                EventView::Log(SyncLogLevel::Error, log_line_spec(msg@)),
            ),
            final(self).shared_spec() == old(self).shared_spec(),
    {
        self.log(SyncLogLevel::Error, msg);
    }

    /// Shows `state` as the current stage (a step of 0 keeps the step).
    pub fn stage(&mut self, state: SyncState, step: usize, target: String)
        ensures
            final(self).shared_spec().snapshot_view() == (SnapshotView {
                stage: state.name_spec(),
                step: if step > 0 {
                    step as nat
                } else {
                    old(self).shared_spec().snapshot_view().step
                },
                target: target@,
                ..old(self).shared_spec().snapshot_view()
            }),
            final(self).shared_spec().cancel_requested() == old(self).shared_spec().cancel_requested(),
            final(self).shared_spec().finished_flag() == old(self).shared_spec().finished_flag(),
            final(self).pending() == old(self).pending(),
    {
        self.shared.set_stage(state.name(), step, target);
    }

    /// Shows `msg` as the detail line.
    pub fn detail(&mut self, msg: String)
        ensures
            final(self).shared_spec().snapshot_view() == (SnapshotView {
                detail: msg@,
                ..old(self).shared_spec().snapshot_view()
            }),
            final(self).shared_spec().cancel_requested() == old(self).shared_spec().cancel_requested(),
            final(self).shared_spec().finished_flag() == old(self).shared_spec().finished_flag(),
            final(self).pending() == old(self).pending(),
    {
        self.shared.set_detail(msg);
    }

    /// Whether the user asked to cancel.
    pub fn cancelled(&self) -> (r: bool)
        ensures
            r == self.shared_spec().cancel_requested(),
    {
        self.shared.is_cancelled()
    }

    /// Stops with `Cancelled` once the user asked to cancel.
    pub fn cancel_check(&self) -> (r: Result<(), LoadoutSyncError>)
        ensures
            self.shared_spec().cancel_requested() ==> r matches Err(LoadoutSyncError::Cancelled),
            !self.shared_spec().cancel_requested() ==> r is Ok,
    {
        if self.cancelled() {
            Err(LoadoutSyncError::Cancelled)
        } else {
            Ok(())
        }
    }

    /// The shared state, to read or to update (cancel requests).
    pub fn shared_mut(&mut self) -> (r: &mut LoadoutSyncShared)
        ensures
            *r == old(self).shared_spec(),
            final(self).shared_spec() == *final(r),
            final(self).pending() == old(self).pending(),
    {
        &mut self.shared
    }

    /// The shared state.
    pub fn shared(&self) -> (r: &LoadoutSyncShared)
        ensures
            *r == self.shared_spec(),
    {
        &self.shared
    }

    /// Logs why a step failed: the error's code and message, its hint if it
    /// has one, then that the automation was aborted.
    pub fn report_abort(&mut self, err: &LoadoutSyncError)
        ensures
            final(self).shared_spec() == old(self).shared_spec(),
            final(self).pending() == {
                let p = old(self).pending().push(
                    EventView::Log(
                        SyncLogLevel::Error,
                        log_line_spec("ERROR: "@ + err.code_spec() + " — "@ + err.message_spec()),
                    ),
                );
                let q = match err.hint_spec() {
                    Some(h) => p.push(EventView::Log(SyncLogLevel::Warn, log_line_spec(h))),
                    None => p,
                };
                q.push(EventView::Log(SyncLogLevel::Info, log_line_spec("Automation aborted"@)))
            },
    {
        let mut line = String::new();
        push_str(&mut line, "ERROR: ");
        push_str(&mut line, err.code());
        push_str(&mut line, " — ");
        let m = err.message();
        push_str(&mut line, m.as_str());
        self.error(line.as_str());
        match err.hint() {
            Some(h) => self.warn(h),
            None => {},
        }
        self.info("Automation aborted");
    }

    /// Ends the run with `status` (after the input was released): a closing
    /// line for a success or a cancel, then the shared state is finished with
    /// `status` and the `Finished` event is the last one queued.
    pub fn publish_final(&mut self, status: SyncStatus)
        ensures
            final(self).shared_spec().snapshot_view() == (SnapshotView {
                status: status@,
                target: Seq::empty(),
                ..old(self).shared_spec().snapshot_view()
            }),
            final(self).shared_spec().finished_flag(),
            final(self).shared_spec().cancel_requested() == old(self).shared_spec().cancel_requested(),
            final(self).pending() == match status {
                SyncStatus::Succeeded => old(self).pending().push(
                    EventView::Log(SyncLogLevel::Info, log_line_spec("Completed"@)),
                ),
                SyncStatus::Cancelled => old(self).pending().push(
                    EventView::Log(SyncLogLevel::Info, log_line_spec("Cancelled by user"@)),
                ),
                _ => old(self).pending(),
            }.push(EventView::Finished(status@)),
    {
        match status {
            SyncStatus::Succeeded => self.info("Completed"),
            SyncStatus::Cancelled => self.info("Cancelled by user"),
            _ => {},
        }
        let ghost before = self.outbox@;
        let copy = status.duplicate();
        self.shared.finish(copy);
        self.outbox.push(SyncEvent::Finished(status));
        assert(event_views(self.outbox@) =~= event_views(before).push(EventView::Finished(status@)));
    }

    /// Hands over the pending events, oldest first.
    pub fn take_events(&mut self) -> (r: Vec<SyncEvent>)
        ensures
            event_views(r@) == old(self).pending(),
            final(self).pending().len() == 0,
            final(self).shared_spec() == old(self).shared_spec(),
    {
        let mut taken: Vec<SyncEvent> = Vec::new();
        std::mem::swap(&mut taken, &mut self.outbox);
        taken
    }
}

} // verus!
