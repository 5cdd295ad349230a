//! Run state of a loadout sync: what the interface shows and what the worker
//! writes.
//!
//! The state is a plain value here; the application shares it between the
//! interface thread and the worker behind a lock and an atomic cancel flag.
use vstd::prelude::*;
use crate::loadout_sync::error::LoadoutSyncError;
use vstd::string::*;
use crate::text::{decimal, push_decimal, push_str};

verus! {

/// Number of targets of one run (four stratagems and a booster).
pub const TOTAL_STEPS: usize = 5;

/// Overall status of a run.
#[derive(Debug, Clone, PartialEq)]
pub enum SyncStatus {
    Idle,
    Running,
    Succeeded,
    Failed { code: String, message: String },
    Cancelled,
}

impl Default for SyncStatus {
    fn default() -> (r: Self)
        ensures
            r is Idle,
    {
        SyncStatus::Idle
    }
}

/// The view of a status: its variant with the texts of a failure.
pub enum StatusView {
    Idle,
    Running,
    Succeeded,
    Failed { code: Seq<char>, message: Seq<char> },
    Cancelled,
}

impl View for SyncStatus {
    type V = StatusView;

    open spec fn view(&self) -> StatusView {
        match self {
            SyncStatus::Idle => StatusView::Idle,
            SyncStatus::Running => StatusView::Running,
            SyncStatus::Succeeded => StatusView::Succeeded,
            SyncStatus::Failed { code, message } => StatusView::Failed {
                code: code@,
                message: message@,
            },
            SyncStatus::Cancelled => StatusView::Cancelled,
        }
    }
}

impl SyncStatus {
    /// A copy with the same view.
    pub fn duplicate(&self) -> (r: SyncStatus)
        ensures
            r@ == self@,
    {
        match self {
            SyncStatus::Idle => SyncStatus::Idle,
            SyncStatus::Running => SyncStatus::Running,
            SyncStatus::Succeeded => SyncStatus::Succeeded,
            SyncStatus::Failed { code, message } => SyncStatus::Failed {
                code: code.clone(),
                message: message.clone(),
            },
            SyncStatus::Cancelled => SyncStatus::Cancelled,
        }
    }
}

/// What the interface shows of a run.
#[derive(Debug, Clone, PartialEq)]
pub struct SyncSnapshot {
    pub status: SyncStatus,
    /// Name of the current state machine stage (logs and debugging).
    pub stage: &'static str,
    /// Which target is being worked on (1..=5).
    pub step: usize,
    pub total: usize,
    pub target: String,
    pub detail: String,
}

/// The view of a snapshot: its fields by their views.
pub struct SnapshotView {
    pub status: StatusView,
    pub stage: Seq<char>,
    pub step: nat,
    pub total: nat,
    pub target: Seq<char>,
    pub detail: Seq<char>,
}

impl View for SyncSnapshot {
    type V = SnapshotView;

    open spec fn view(&self) -> SnapshotView {
        SnapshotView {
            status: self.status@,
            stage: self.stage@,
            step: self.step as nat,
            total: self.total as nat,
            target: self.target@,
            detail: self.detail@,
        }
    }
}

/// The snapshot of a run that has not started: idle, nothing to show.
pub open spec fn idle_snapshot() -> SnapshotView {
    SnapshotView {
        status: StatusView::Idle,
        stage: "Idle"@,
        step: 0,
        total: TOTAL_STEPS as nat,
        target: Seq::empty(),
        detail: Seq::empty(),
    }
}

/// The snapshot right after a run starts.
pub open spec fn preparing_snapshot() -> SnapshotView {
    SnapshotView {
        status: StatusView::Running,
        stage: "Preparing"@,
        step: 0,
        total: TOTAL_STEPS as nat,
        target: Seq::empty(),
        detail: Seq::empty(),
    }
}

impl Default for SyncSnapshot {
    fn default() -> (r: Self)
        ensures
            r@ == idle_snapshot(),
    {
        SyncSnapshot {
            status: SyncStatus::Idle,
            stage: "Idle",
            step: 0,
            total: TOTAL_STEPS,
            target: String::new(),
            detail: String::new(),
        }
    }
}

/// The text of the interface's top bar for a snapshot.
pub open spec fn snapshot_label(s: SnapshotView) -> Seq<char> {
    match s.status {
        StatusView::Idle => "IDLE"@,
        StatusView::Running => {
            let head = "SYNCING "@ + decimal(if s.step >= 1 {
                s.step
            } else {
                1nat
            }) + "/"@ + decimal(s.total);
            if s.target.len() == 0 {
                head
            } else {
                head + " · "@ + s.target
            }
        },
        StatusView::Succeeded => "SYNC COMPLETE"@,
        StatusView::Failed { .. } => "SYNC FAILED"@,
        StatusView::Cancelled => "SYNC CANCELLED"@,
    }
}

impl SyncSnapshot {
    /// A copy with the same view.
    pub fn duplicate(&self) -> (r: SyncSnapshot)
        ensures
            r@ == self@,
    {
        SyncSnapshot {
            status: self.status.duplicate(),
            stage: self.stage,
            step: self.step,
            total: self.total,
            target: self.target.clone(),
            detail: self.detail.clone(),
        }
    }

    /// Whether the run is in progress.
    pub fn is_running(&self) -> (r: bool)
        ensures
            r == (self.status is Running),
    {
        match self.status {
            SyncStatus::Running => true,
            _ => false,
        }
    }

    /// The text of the interface's top bar.
    pub fn label(&self) -> (r: String)
        ensures
            r@ == snapshot_label(self@),
    {
        let mut s = String::new();
        match &self.status {
            SyncStatus::Idle => push_str(&mut s, "IDLE"),
            SyncStatus::Running => {
                push_str(&mut s, "SYNCING ");
                let step: usize = if self.step >= 1 {
                    self.step
                } else {
                    1
                };
                push_decimal(&mut s, step as u64);
                push_str(&mut s, "/");
                push_decimal(&mut s, self.total as u64);
                if self.target.as_str().unicode_len() > 0 {
                    push_str(&mut s, " · ");
                    push_str(&mut s, self.target.as_str());
                }
            },
            SyncStatus::Succeeded => push_str(&mut s, "SYNC COMPLETE"),
            SyncStatus::Failed { .. } => push_str(&mut s, "SYNC FAILED"),
            SyncStatus::Cancelled => push_str(&mut s, "SYNC CANCELLED"),
        }
        assert(s@ =~= snapshot_label(self@));
        s
    }
}

/// Level of a log line sent to the interface.
#[derive(Debug, Clone, Copy, PartialEq, Eq, Structural)]
pub enum SyncLogLevel {
    Info,
    Warn,
    Error,
}

/// What the worker sends to the interface.
#[derive(Debug, Clone)]
pub enum SyncEvent {
    Log(SyncLogLevel, String),
    Finished(SyncStatus),
}

/// The state a run shares between the worker and the interface: the
/// snapshot, the cancel request and whether the run has finished.
#[derive(Debug)]
pub struct LoadoutSyncShared {
    snapshot: SyncSnapshot,
    cancel: bool,
    finished: bool,
}

impl LoadoutSyncShared {
    /// The snapshot held.
    pub closed spec fn snapshot_view(&self) -> SnapshotView {
        self.snapshot@
    }

    /// Whether a cancel was requested.
    pub closed spec fn cancel_requested(&self) -> bool {
        self.cancel
    }

    /// Whether the run has finished.
    pub closed spec fn finished_flag(&self) -> bool {
        self.finished
    }

    /// A state for a run that has not started: idle, not cancelled, finished.
    pub fn new() -> (r: Self)
        ensures
            r.snapshot_view() == idle_snapshot(),
            !r.cancel_requested(),
            r.finished_flag(),
    {
        LoadoutSyncShared { snapshot: SyncSnapshot::default(), cancel: false, finished: true }
    }

    /// A copy of the snapshot.
    pub fn snapshot(&self) -> (r: SyncSnapshot)
        ensures
            r@ == self.snapshot_view(),
    {
        self.snapshot.duplicate()
    }

    /// Starts a run: cancel cleared, not finished, snapshot back to "Preparing".
    pub fn begin(&mut self)
        ensures
            final(self).snapshot_view() == preparing_snapshot(),
            !final(self).cancel_requested(),
            !final(self).finished_flag(),
    {
        self.cancel = false;
        self.finished = false;
        self.snapshot = SyncSnapshot {
            status: SyncStatus::Running,
            stage: "Preparing",
            step: 0,
            total: TOTAL_STEPS,
            target: String::new(),
            detail: String::new(),
        };
    }

    /// Records the current stage and target; a step of 0 keeps the step shown.
    pub fn set_stage(&mut self, stage: &'static str, step: usize, target: String)
        ensures
            final(self).snapshot_view() == (SnapshotView {
                stage: stage@,
                step: if step > 0 {
                    step as nat
                } else {
                    old(self).snapshot_view().step
                },
                target: target@,
                ..old(self).snapshot_view()
            }),
            final(self).cancel_requested() == old(self).cancel_requested(),
            final(self).finished_flag() == old(self).finished_flag(),
    {
        self.snapshot.stage = stage;
        if step > 0 {
            self.snapshot.step = step;
        }
        self.snapshot.target = target;
    }

    /// Records the detail line.
    pub fn set_detail(&mut self, detail: String)
        ensures
            final(self).snapshot_view() == (SnapshotView {
                detail: detail@,
                ..old(self).snapshot_view()
            }),
            final(self).cancel_requested() == old(self).cancel_requested(),
            final(self).finished_flag() == old(self).finished_flag(),
    {
        self.snapshot.detail = detail;
    }

    /// Ends the run with `status`; the target is cleared.
    pub fn finish(&mut self, status: SyncStatus)
        ensures
            final(self).snapshot_view() == (SnapshotView {
                status: status@,
                target: Seq::empty(),
                ..old(self).snapshot_view()
            }),
            final(self).finished_flag(),
            final(self).cancel_requested() == old(self).cancel_requested(),
    {
        self.finished = true;
        self.snapshot.status = status;
        self.snapshot.target = String::new();
    }

    /// Whether the run has finished.
    pub fn is_finished(&self) -> (r: bool)
        ensures
            r == self.finished_flag(),
    {
        self.finished
    }

    /// Asks the worker to stop.
    pub fn request_cancel(&mut self)
        ensures
            final(self).cancel_requested(),
            final(self).snapshot_view() == old(self).snapshot_view(),
            final(self).finished_flag() == old(self).finished_flag(),
    {
        self.cancel = true;
    }

    /// Whether a cancel was requested.
    pub fn is_cancelled(&self) -> (r: bool)
        ensures
            r == self.cancel_requested(),
    {
        self.cancel
    }

    /// Back to the state of a run that has not started.
    pub fn reset(&mut self)
        ensures
            final(self).snapshot_view() == idle_snapshot(),
            !final(self).cancel_requested(),
            final(self).finished_flag(),
    {
        self.cancel = false;
        self.finished = true;
        self.snapshot = SyncSnapshot::default();
    }
}

/// The common prefix of every log line.
pub open spec fn log_line_spec(msg: Seq<char>) -> Seq<char> {
    "[LoadoutSync] "@ + msg
}

/// A log line in the common format: `[LoadoutSync] ...`.
pub fn log_line(msg: &str) -> (r: String)
    ensures
        r@ == log_line_spec(msg@),
{
    let mut s = String::new();
    push_str(&mut s, "[LoadoutSync] ");
    push_str(&mut s, msg);
    s
}

/// The status a run ends with after `err`: cancelled for the user's own
/// cancel, otherwise failed with the error's code and message.
pub fn status_from_error(err: &LoadoutSyncError) -> (r: SyncStatus)
    ensures
        err is Cancelled ==> r@ == StatusView::Cancelled,
        !(err is Cancelled) ==> r@ == (StatusView::Failed {
            code: err.code_spec(),
            message: err.message_spec(),
        }),
{
    if err.is_cancelled() {
        SyncStatus::Cancelled
    } else {
        let mut code = String::new();
        push_str(&mut code, err.code());
        SyncStatus::Failed { code, message: err.message() }
    }
}

} // verus!
