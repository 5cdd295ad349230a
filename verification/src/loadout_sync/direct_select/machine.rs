//! The selection state machine: its phases, failures and outcomes, the plan
//! preview, and its step.
//!
//! The machine's record (targets left, ids confirmed, phase, trail, wheel
//! budget, where it stands on the current target) and every decision of its
//! loop are here: `DirectSelectMachine::step` takes what the I/O saw and says
//! what to do next. Observing, moving, clicking and scrolling are done by the
//! caller.
use vstd::prelude::*;
use crate::loadout_sync::direct_select::click_plan::{
    find_visible_target, id_views, lemma_next_target_in_remaining, lemma_visible_target_id,
    next_target, next_visible_target, slot_views, visible_target, SlotRef, SlotRefView,
};
use crate::loadout_sync::direct_select::list_map::NavigationHint;
use crate::loadout_sync::direct_select::page_navigation::{
    navigation_delta, navigation_delta_spec, NavInput, NO_MOVEMENT_FRAMES, PAGE_WHEEL_DELTA,
};
use crate::loadout_sync::direct_select::selection_verify::{
    TerminalHomeOutcome, MAX_HOVER_RELOCATIONS, MAX_TARGET_CLICK_ATTEMPTS, MAX_WHEEL_INPUTS,
    POST_CLICK_CONFIRM_TIMEOUT_MS, POST_CLICK_MIN_OBSERVATIONS, TARGET_POSITION_TOLERANCE,
    TERMINAL_SETTLE_TIMEOUT_MS,
};
use crate::loadout_sync::list_map::ScrollDirection;
use crate::loadout_sync::reference_vision::ItemKind;
use crate::loadout_sync::types::ImageRect;
use crate::text::{decimal, push_decimal, push_str, str_eq, string_views, strings_contain};

verus! {

/// Phase of the state machine (diagnostics and replay assertions).
#[derive(Debug, Clone, Copy, PartialEq, Eq, Structural)]
pub enum DirectSelectPhase {
    /// Not started.
    Idle,
    /// Planning on the current page (visible target / page turn).
    PlanningTarget,
    /// Moving the cursor and waiting for the hover.
    Hovering,
    /// Clicking.
    Clicking,
    /// Verifying the change after the click.
    VerifyingSelection,
    /// All targets done, waiting for home to settle.
    WaitingTerminalHome,
    /// Finished successfully.
    Done,
    /// Stopped safely.
    Failed,
}

impl DirectSelectPhase {
    /// Stable label of the phase.
    pub open spec fn label_spec(self) -> Seq<char> {
        match self {
            DirectSelectPhase::Idle => "idle"@,
            DirectSelectPhase::PlanningTarget => "planning_target"@,
            DirectSelectPhase::Hovering => "hovering"@,
            DirectSelectPhase::Clicking => "clicking"@,
            DirectSelectPhase::VerifyingSelection => "verifying_selection"@,
            DirectSelectPhase::WaitingTerminalHome => "waiting_terminal_home"@,
            DirectSelectPhase::Done => "done"@,
            DirectSelectPhase::Failed => "failed"@,
        }
    }

    /// Stable label of the phase.
    pub fn label(self) -> (r: &'static str)
        ensures
            r@ == self.label_spec(),
    {
        match self {
            DirectSelectPhase::Idle => "idle",
            DirectSelectPhase::PlanningTarget => "planning_target",
            DirectSelectPhase::Hovering => "hovering",
            DirectSelectPhase::Clicking => "clicking",
            DirectSelectPhase::VerifyingSelection => "verifying_selection",
            DirectSelectPhase::WaitingTerminalHome => "waiting_terminal_home",
            DirectSelectPhase::Done => "done",
            DirectSelectPhase::Failed => "failed",
        }
    }
}

/// Why a selection stopped (every reason explained).
#[derive(Debug, Clone, PartialEq)]
pub enum DirectSelectFailure {
    /// The target was not found within the wheel budget.
    TargetNotFound { item_id: String, wheel_inputs: u32 },
    /// The hover never confirmed.
    HoverNotConfirmed { item_id: String },
    /// The target left the viewport while relocating before the hover.
    TargetLostWhileRelocating { item_id: String },
    /// No change was seen after the click (retries used up).
    SelectionUnchanged { item_id: String, attempts: usize },
    /// The click could not be verified.
    SelectionNotEvaluable { item_id: String, detail: String },
    /// The last target did not return to home.
    TerminalHomeNotReached { detail: String },
    /// The IO layer failed.
    Io { detail: String },
}

impl DirectSelectFailure {
    /// Stable label of the failure.
    pub open spec fn label_spec(&self) -> Seq<char> {
        match self {
            DirectSelectFailure::TargetNotFound { .. } => "target_not_found"@,
            DirectSelectFailure::HoverNotConfirmed { .. } => "hover_not_confirmed"@,
            DirectSelectFailure::TargetLostWhileRelocating { .. } => "target_lost_while_relocating"@,
            DirectSelectFailure::SelectionUnchanged { .. } => "selection_unchanged"@,
            DirectSelectFailure::SelectionNotEvaluable { .. } => "selection_not_evaluable"@,
            DirectSelectFailure::TerminalHomeNotReached { .. } => "terminal_home_not_reached"@,
            DirectSelectFailure::Io { .. } => "io_error"@,
        }
    }

    /// Stable label of the failure.
    pub fn label(&self) -> (r: &'static str)
        ensures
            r@ == self.label_spec(),
    {
        match self {
            DirectSelectFailure::TargetNotFound { .. } => "target_not_found",
            DirectSelectFailure::HoverNotConfirmed { .. } => "hover_not_confirmed",
            DirectSelectFailure::TargetLostWhileRelocating { .. } => "target_lost_while_relocating",
            DirectSelectFailure::SelectionUnchanged { .. } => "selection_unchanged",
            DirectSelectFailure::SelectionNotEvaluable { .. } => "selection_not_evaluable",
            DirectSelectFailure::TerminalHomeNotReached { .. } => "terminal_home_not_reached",
            DirectSelectFailure::Io { .. } => "io_error",
        }
    }

    /// The explanation of the failure.
    pub open spec fn message_spec(&self) -> Seq<char> {
        match self {
            DirectSelectFailure::TargetNotFound { item_id, wheel_inputs } => "目标「"@ + item_id@
                + "」在 "@ + decimal(*wheel_inputs as nat) + " 次滚轮输入内未找到（列表边界）"@,
            DirectSelectFailure::HoverNotConfirmed { item_id } => "目标「"@ + item_id@
                + "」悬停始终未确认"@,
            DirectSelectFailure::TargetLostWhileRelocating { item_id } => "目标「"@ + item_id@
                + "」在悬停重定位期间离开可见视口"@,
            DirectSelectFailure::SelectionUnchanged { item_id, attempts } => "目标「"@ + item_id@
                + "」在 "@ + decimal(*attempts as nat) + " 次点击后仍未观察到选中"@,
            DirectSelectFailure::SelectionNotEvaluable { item_id, detail } => "目标「"@
                + item_id@ + "」点击后无法验证: "@ + detail@,
            DirectSelectFailure::TerminalHomeNotReached { detail } => "最终未确认回到 Home: "@
                + detail@,
            DirectSelectFailure::Io { detail } => "IO 失败: "@ + detail@,
        }
    }

    /// The explanation of the failure.
    pub fn message(&self) -> (r: String)
        ensures
            r@ == self.message_spec(),
    {
        let mut s = String::new();
        match self {
            DirectSelectFailure::TargetNotFound { item_id, wheel_inputs } => {
                push_str(&mut s, "目标「");
                push_str(&mut s, item_id.as_str());
                push_str(&mut s, "」在 ");
                push_decimal(&mut s, *wheel_inputs as u64);
                push_str(&mut s, " 次滚轮输入内未找到（列表边界）");
            },
            DirectSelectFailure::HoverNotConfirmed { item_id } => {
                push_str(&mut s, "目标「");
                push_str(&mut s, item_id.as_str());
                push_str(&mut s, "」悬停始终未确认");
            },
            DirectSelectFailure::TargetLostWhileRelocating { item_id } => {
                push_str(&mut s, "目标「");
                push_str(&mut s, item_id.as_str());
                push_str(&mut s, "」在悬停重定位期间离开可见视口");
            },
            DirectSelectFailure::SelectionUnchanged { item_id, attempts } => {
                push_str(&mut s, "目标「");
                push_str(&mut s, item_id.as_str());
                push_str(&mut s, "」在 ");
                push_decimal(&mut s, *attempts as u64);
                push_str(&mut s, " 次点击后仍未观察到选中");
            },
            DirectSelectFailure::SelectionNotEvaluable { item_id, detail } => {
                push_str(&mut s, "目标「");
                push_str(&mut s, item_id.as_str());
                push_str(&mut s, "」点击后无法验证: ");
                push_str(&mut s, detail.as_str());
            },
            DirectSelectFailure::TerminalHomeNotReached { detail } => {
                push_str(&mut s, "最终未确认回到 Home: ");
                push_str(&mut s, detail.as_str());
            },
            DirectSelectFailure::Io { detail } => {
                push_str(&mut s, "IO 失败: ");
                push_str(&mut s, detail.as_str());
            },
        }
        assert(s@ =~= self.message_spec());
        s
    }
}

/// Result of a selection run.
#[derive(Debug, Clone, PartialEq)]
pub enum DirectSelectOutcome {
    /// Every target selected and confirmed.
    Succeeded { selected: Vec<String> },
    /// Stopped safely (no further input is sent).
    Failed { failure: DirectSelectFailure, selected: Vec<String> },
}

impl DirectSelectOutcome {
    /// Whether every target was selected.
    pub fn is_success(&self) -> (r: bool)
        ensures
            r == (self is Succeeded),
    {
        match self {
            DirectSelectOutcome::Succeeded { .. } => true,
            DirectSelectOutcome::Failed { .. } => false,
        }
    }

    /// The failure, if the run failed.
    pub fn failure(&self) -> (r: Option<&DirectSelectFailure>)
        ensures
            match self {
                DirectSelectOutcome::Succeeded { .. } => r is None,
                DirectSelectOutcome::Failed { failure, .. } => r == Some(failure),
            },
    {
        match self {
            DirectSelectOutcome::Succeeded { .. } => None,
            DirectSelectOutcome::Failed { failure, .. } => Some(failure),
        }
    }

    /// The ids confirmed so far.
    pub fn selected(&self) -> (r: &[String])
        ensures
            r@ == match self {
                DirectSelectOutcome::Succeeded { selected } => selected@,
                DirectSelectOutcome::Failed { selected, .. } => selected@,
            },
    {
        match self {
            DirectSelectOutcome::Succeeded { selected } => selected.as_slice(),
            DirectSelectOutcome::Failed { selected, .. } => selected.as_slice(),
        }
    }
}

/// The configured ids among the first `n`, first occurrences only, in order.
pub open spec fn distinct_present(s: Seq<Option<Seq<char>>>, n: int) -> Seq<Seq<char>>
    decreases n,
{
    if n <= 0 {
        Seq::empty()
    } else {
        let prev = distinct_present(s, n - 1);
        match s[n - 1] {
            Some(x) => if prev.contains(x) {
                prev
            } else {
                prev.push(x)
            },
            None => prev,
        }
    }
}

/// Views of optional strings.
pub open spec fn opt_string_views(v: Seq<Option<String>>) -> Seq<Option<Seq<char>>> {
    v.map_values(|o: Option<String>| match o {
        Some(x) => Some(x@),
        None => None,
    })
}

/// The plan a preset asks for, before any input is sent: the configured
/// stratagem ids (without repeats, in order) and the booster id.
pub fn plan_preview(stratagems: &[Option<String>], booster: Option<&String>) -> (r: (
    Vec<String>,
    Vec<String>,
))
    ensures
        string_views(r.0@) == distinct_present(
            opt_string_views(stratagems@),
            stratagems@.len() as int,
        ),
        string_views(r.1@) == match booster {
            Some(b) => seq![b@],
            None => Seq::<Seq<char>>::empty(),
        },
{
    let ghost sv = opt_string_views(stratagems@);
    let mut targets: Vec<String> = Vec::new();
    let mut i: usize = 0;
    while i < stratagems.len()
        invariant
            i <= stratagems@.len(),
            sv == opt_string_views(stratagems@),
            string_views(targets@) == distinct_present(sv, i as int),
        decreases stratagems@.len() - i,
    {
        match &stratagems[i] {
            Some(item) => {
                proof {
                    assert(sv[i as int] == Some(item@));
                }
                if !strings_contain(targets.as_slice(), item.as_str()) {
                    targets.push(item.clone());
                    assert(string_views(targets@) =~= distinct_present(sv, i + 1));
                }
            },
            None => {
                proof {
                    assert(sv[i as int] is None);
                }
            },
        }
        i = i + 1;
    }
    let mut boosters: Vec<String> = Vec::new();
    match booster {
        Some(b) => {
            boosters.push(b.clone());
        },
        None => {},
    }
    assert(string_views(boosters@) =~= match booster {
        Some(b) => seq![b@],
        None => Seq::<Seq<char>>::empty(),
    });
    (targets, boosters)
}

/// Trail of one run (replay assertions).
#[derive(Debug, Clone, Default, PartialEq)]
pub struct DirectSelectTrace {
    pub phases: Vec<DirectSelectPhase>,
    pub wheel_inputs: u32,
    pub clicks: u32,
    pub hovers_confirmed: u32,
    pub fallbacks: u32,
}

impl DirectSelectTrace {
    /// An empty trail.
    pub fn new() -> (r: DirectSelectTrace)
        ensures
            r.phases@.len() == 0,
            r.wheel_inputs == 0,
            r.clicks == 0,
            r.hovers_confirmed == 0,
            r.fallbacks == 0,
    {
        DirectSelectTrace {
            phases: Vec::new(),
            wheel_inputs: 0,
            clicks: 0,
            hovers_confirmed: 0,
            fallbacks: 0,
        }
    }

    /// Records entering `phase`; repeated entries of the same phase are
    /// recorded once.
    pub fn enter(&mut self, phase: DirectSelectPhase)
        ensures
            final(self).phases@ == if old(self).phases@.len() > 0 && old(self).phases@.last()
                == phase {
                old(self).phases@
            } else {
                old(self).phases@.push(phase)
            },
            final(self).wheel_inputs == old(self).wheel_inputs,
            final(self).clicks == old(self).clicks,
            final(self).hovers_confirmed == old(self).hovers_confirmed,
            final(self).fallbacks == old(self).fallbacks,
    {
        let n = self.phases.len();
        if n == 0 || self.phases[n - 1] != phase {
            self.phases.push(phase);
        }
    }
}

/// No phase follows itself in a trail.
pub open spec fn no_adjacent_repeats(p: Seq<DirectSelectPhase>) -> bool {
    forall|i: int| 0 <= i < p.len() - 1 ==> #[trigger] p[i] != p[i + 1]
}

/// `ids` without every occurrence of `id`.
pub open spec fn without(ids: Seq<Seq<char>>, id: Seq<char>) -> Seq<Seq<char>>
    decreases ids.len(),
{
    if ids.len() == 0 {
        Seq::empty()
    } else {
        let rest = without(ids.drop_last(), id);
        if ids.last() == id {
            rest
        } else {
            rest.push(ids.last())
        }
    }
}

/// A confirmed target is never a target again: removing `id` leaves no
/// occurrence of it, and every other target stays, in order.
pub proof fn lemma_confirmed_target_is_gone(ids: Seq<Seq<char>>, id: Seq<char>, other: Seq<char>)
    ensures
        !without(ids, id).contains(id),
        other != id ==> (without(ids, id).contains(other) <==> ids.contains(other)),
        without(ids, id).len() <= ids.len(),
    decreases ids.len(),
{
    if ids.len() > 0 {
        let rest = ids.drop_last();
        lemma_confirmed_target_is_gone(rest, id, other);
        let w = without(rest, id);
        if ids.last() != id {
            assert(w.push(ids.last())[w.len() as int] == ids.last());
            if w.push(ids.last()).contains(id) {
                let k = choose|k: int| 0 <= k < w.len() + 1 && w.push(ids.last())[k] == id;
                assert(k < w.len());
                assert(w[k] == id);
            }
            if other != id {
                if w.push(ids.last()).contains(other) {
                    let k = choose|k: int| 0 <= k < w.len() + 1 && w.push(ids.last())[k] == other;
                    if k < w.len() {
                        assert(w[k] == other);
                        let j = choose|j: int| 0 <= j < rest.len() && rest[j] == other;
                        assert(ids[j] == other);
                    } else {
                        assert(ids[ids.len() - 1] == other);
                    }
                }
                if ids.contains(other) {
                    let j = choose|j: int| 0 <= j < ids.len() && ids[j] == other;
                    if j < ids.len() - 1 {
                        assert(rest[j] == other);
                        let k = choose|k: int| 0 <= k < w.len() && w[k] == other;
                        assert(w.push(ids.last())[k] == other);
                    } else {
                        assert(w.push(ids.last())[w.len() as int] == other);
                    }
                }
            }
        } else if other != id {
            if w.contains(other) {
                let k = choose|k: int| 0 <= k < w.len() && w[k] == other;
                assert(rest.contains(other));
                let j = choose|j: int| 0 <= j < rest.len() && rest[j] == other;
                assert(ids[j] == other);
            }
            if ids.contains(other) {
                let j = choose|j: int| 0 <= j < ids.len() && ids[j] == other;
                assert(j < ids.len() - 1);
                assert(rest[j] == other);
            }
        }
    }
}

/// Where the selection machine stands between two events.
#[derive(Debug, Clone, PartialEq)]
pub enum SelectMode {
    /// Waiting for the page to plan on.
    Planning,
    /// A scroll was sent; `frames` unchanged frames were seen since.
    Turning { direction: ScrollDirection, probe: bool, frames: usize },
    /// The cursor was sent to `rect`; waiting for the target to be found again.
    Relocating { item_id: String, rect: ImageRect },
    /// The target held still under the cursor; waiting for the hover verdict.
    Hovering { item_id: String, rect: ImageRect },
    /// Clicked; waiting for what the frames after the click show.
    Verifying { item_id: String },
    /// Every target confirmed; waiting for home to settle.
    WaitingHome,
    /// The run is over.
    Finished,
}

/// The view of a mode.
#[verifier::ext_equal]
pub enum ModeView {
    Planning,
    Turning { direction: ScrollDirection, probe: bool, frames: usize },
    Relocating { item_id: Seq<char>, rect: ImageRect },
    Hovering { item_id: Seq<char>, rect: ImageRect },
    Verifying { item_id: Seq<char> },
    WaitingHome,
    Finished,
}

impl View for SelectMode {
    type V = ModeView;

    open spec fn view(&self) -> ModeView {
        match self {
            SelectMode::Planning => ModeView::Planning,
            SelectMode::Turning { direction, probe, frames } => ModeView::Turning {
                direction: *direction,
                probe: *probe,
                frames: *frames,
            },
            SelectMode::Relocating { item_id, rect } => ModeView::Relocating {
                item_id: item_id@,
                rect: *rect,
            },
            SelectMode::Hovering { item_id, rect } => ModeView::Hovering {
                item_id: item_id@,
                rect: *rect,
            },
            SelectMode::Verifying { item_id } => ModeView::Verifying { item_id: item_id@ },
            SelectMode::WaitingHome => ModeView::WaitingHome,
            SelectMode::Finished => ModeView::Finished,
        }
    }
}

impl SelectMode {
    /// A copy with the same view.
    pub fn duplicate(&self) -> (r: SelectMode)
        ensures
            r@ == self@,
    {
        match self {
            SelectMode::Planning => SelectMode::Planning,
            SelectMode::Turning { direction, probe, frames } => SelectMode::Turning {
                direction: *direction,
                probe: *probe,
                frames: *frames,
            },
            SelectMode::Relocating { item_id, rect } => SelectMode::Relocating {
                item_id: item_id.clone(),
                rect: *rect,
            },
            SelectMode::Hovering { item_id, rect } => SelectMode::Hovering {
                item_id: item_id.clone(),
                rect: *rect,
            },
            SelectMode::Verifying { item_id } => SelectMode::Verifying { item_id: item_id.clone() },
            SelectMode::WaitingHome => SelectMode::WaitingHome,
            SelectMode::Finished => SelectMode::Finished,
        }
    }
}

/// What the frames after a click showed.
#[derive(Debug, Clone, PartialEq)]
pub enum PostClick {
    /// The slot is selected (viewport shift or border dimming).
    Selected,
    /// No change yet; `window_closed` once the confirm window is over
    /// (`post_click_window_closed`).
    Unchanged { window_closed: bool },
    /// The click could not be checked.
    NotEvaluable(String),
}

/// What the I/O saw since the last action.
#[derive(Debug, Clone, PartialEq)]
pub enum SelectEvent {
    /// The user cancelled.
    Cancelled,
    /// Observing or sending input failed.
    IoFailed(String),
    /// A page was observed: its slots and the list map's advice for the
    /// first target left.
    Page { slots: Vec<SlotRef>, hint: NavigationHint },
    /// A frame after a scroll: whether the viewport moved.
    TurnFrame { moved: bool },
    /// A frame after moving the cursor: the slots seen on it.
    Relocated { slots: Vec<SlotRef> },
    /// The hover wait ended: confirmed or not.
    Hover { confirmed: bool },
    /// A frame after a click.
    PostClick(PostClick),
    /// The wait for home ended.
    Home(TerminalHomeOutcome),
}

/// The view of a post-click observation.
pub enum PostClickView {
    Selected,
    Unchanged { window_closed: bool },
    NotEvaluable(Seq<char>),
}

/// The view of a post-click observation.
pub open spec fn post_click_view(p: PostClick) -> PostClickView {
    match p {
        PostClick::Selected => PostClickView::Selected,
        PostClick::Unchanged { window_closed } => PostClickView::Unchanged { window_closed },
        PostClick::NotEvaluable(d) => PostClickView::NotEvaluable(d@),
    }
}

/// The view of an event.
pub enum EventView {
    Cancelled,
    IoFailed(Seq<char>),
    Page { slots: Seq<SlotRefView>, hint: NavigationHint },
    TurnFrame { moved: bool },
    Relocated { slots: Seq<SlotRefView> },
    Hover { confirmed: bool },
    PostClick(PostClickView),
    Home(TerminalHomeOutcome),
}

impl View for SelectEvent {
    type V = EventView;

    open spec fn view(&self) -> EventView {
        match self {
            SelectEvent::Cancelled => EventView::Cancelled,
            SelectEvent::IoFailed(d) => EventView::IoFailed(d@),
            SelectEvent::Page { slots, hint } => EventView::Page {
                slots: slot_views(slots@),
                hint: *hint,
            },
            SelectEvent::TurnFrame { moved } => EventView::TurnFrame { moved: *moved },
            SelectEvent::Relocated { slots } => EventView::Relocated { slots: slot_views(slots@) },
            SelectEvent::Hover { confirmed } => EventView::Hover { confirmed: *confirmed },
            SelectEvent::PostClick(p) => EventView::PostClick(post_click_view(*p)),
            SelectEvent::Home(o) => EventView::Home(*o),
        }
    }
}

/// What the I/O is to do next.
#[derive(Debug, Clone, PartialEq)]
pub enum SelectAction {
    /// Capture and classify a frame, then report it.
    Observe,
    /// Send this wheel delta, then report the next frame.
    Scroll(i32),
    /// Move the cursor to the centre of this slot, then report where the
    /// target is.
    MoveCursor(ImageRect),
    /// Wait for the hover to confirm, then report the verdict.
    WaitHover,
    /// Click the hovered target, then report the frames after it.
    Click,
    /// Wait (bounded) for home to settle, then report the outcome.
    WaitHome,
    /// The run ended.
    Finish(DirectSelectOutcome),
    /// The run had already ended; nothing is done.
    Stopped,
}

/// The view of a failure.
pub enum FailureView {
    TargetNotFound { item_id: Seq<char>, wheel_inputs: u32 },
    HoverNotConfirmed { item_id: Seq<char> },
    TargetLostWhileRelocating { item_id: Seq<char> },
    SelectionUnchanged { item_id: Seq<char>, attempts: usize },
    SelectionNotEvaluable { item_id: Seq<char>, detail: Seq<char> },
    TerminalHomeNotReached { detail: Seq<char> },
    Io { detail: Seq<char> },
}

/// The view of a failure.
pub open spec fn failure_view(f: DirectSelectFailure) -> FailureView {
    match f {
        DirectSelectFailure::TargetNotFound { item_id, wheel_inputs } => FailureView::TargetNotFound {
            item_id: item_id@,
            wheel_inputs,
        },
        DirectSelectFailure::HoverNotConfirmed { item_id } => FailureView::HoverNotConfirmed {
            item_id: item_id@,
        },
        DirectSelectFailure::TargetLostWhileRelocating { item_id } =>
            FailureView::TargetLostWhileRelocating { item_id: item_id@ },
        DirectSelectFailure::SelectionUnchanged { item_id, attempts } =>
            FailureView::SelectionUnchanged { item_id: item_id@, attempts },
        DirectSelectFailure::SelectionNotEvaluable { item_id, detail } =>
            FailureView::SelectionNotEvaluable { item_id: item_id@, detail: detail@ },
        DirectSelectFailure::TerminalHomeNotReached { detail } =>
            FailureView::TerminalHomeNotReached { detail: detail@ },
        DirectSelectFailure::Io { detail } => FailureView::Io { detail: detail@ },
    }
}

/// The view of a run's outcome.
pub enum OutcomeView {
    Succeeded(Seq<Seq<char>>),
    Failed(FailureView, Seq<Seq<char>>),
}

/// The view of an action.
pub enum ActionView {
    Observe,
    Scroll(int),
    MoveCursor(ImageRect),
    WaitHover,
    Click,
    WaitHome,
    Finish(OutcomeView),
    Stopped,
}

impl View for SelectAction {
    type V = ActionView;

    open spec fn view(&self) -> ActionView {
        match self {
            SelectAction::Observe => ActionView::Observe,
            SelectAction::Scroll(d) => ActionView::Scroll(*d as int),
            SelectAction::MoveCursor(r) => ActionView::MoveCursor(*r),
            SelectAction::WaitHover => ActionView::WaitHover,
            SelectAction::Click => ActionView::Click,
            SelectAction::WaitHome => ActionView::WaitHome,
            SelectAction::Finish(o) => ActionView::Finish(
                match o {
                    DirectSelectOutcome::Succeeded { selected } => OutcomeView::Succeeded(
                        string_views(selected@),
                    ),
                    DirectSelectOutcome::Failed { failure, selected } => OutcomeView::Failed(
                        failure_view(*failure),
                        string_views(selected@),
                    ),
                },
            ),
            SelectAction::Stopped => ActionView::Stopped,
        }
    }
}

/// The view of the machine.
#[verifier::ext_equal]
pub struct MachineView {
    /// Targets not yet confirmed, in preset order.
    pub remaining: Seq<Seq<char>>,
    /// Ids confirmed, in order.
    pub selected: Seq<Seq<char>>,
    pub kind: ItemKind,
    pub phase: DirectSelectPhase,
    /// The trail of phases.
    pub phases: Seq<DirectSelectPhase>,
    pub wheel_inputs: u32,
    pub clicks: u32,
    pub hovers_confirmed: u32,
    pub fallbacks: u32,
    pub mode: ModeView,
    /// Clicks sent on the current target.
    pub clicks_on_current: usize,
    /// Cursor placements tried on the current target.
    pub relocations: usize,
    /// Home was seen settled after the last target.
    pub home_settled: bool,
    /// The targets the machine was made for, in order.
    pub initial: Seq<Seq<char>>,
}

/// Entering `p`: the trail records it once however often it is entered in a
/// row.
pub open spec fn enter_view(m: MachineView, p: DirectSelectPhase) -> MachineView {
    MachineView {
        phase: p,
        phases: if m.phases.len() > 0 && m.phases.last() == p {
            m.phases
        } else {
            m.phases.push(p)
        },
        ..m
    }
}

/// Stopping safely with `f`: the run is over, the ids confirmed so far are
/// reported.
pub open spec fn failed_step(m: MachineView, f: FailureView) -> (MachineView, ActionView) {
    (
        MachineView { mode: ModeView::Finished, ..enter_view(m, DirectSelectPhase::Failed) },
        ActionView::Finish(OutcomeView::Failed(f, m.selected)),
    )
}

/// The first target left was not found within the wheel budget.
pub open spec fn not_found_view(m: MachineView) -> FailureView {
    FailureView::TargetNotFound { item_id: m.remaining[0], wheel_inputs: m.wheel_inputs }
}

/// Label of a terminal home outcome.
pub open spec fn terminal_label(o: TerminalHomeOutcome) -> Seq<char> {
    match o {
        TerminalHomeOutcome::Settled => "settled"@,
        TerminalHomeOutcome::Timeout { .. } => "timeout"@,
        TerminalHomeOutcome::StillInList => "still_in_list"@,
    }
}

/// No target visible on the page: scroll the way the map advises, within
/// the wheel budget; never blindly when the target should be visible.
pub open spec fn turn_spec(m: MachineView, hint: NavigationHint) -> (MachineView, ActionView) {
    if m.wheel_inputs >= MAX_WHEEL_INPUTS {
        failed_step(m, not_found_view(m))
    } else {
        match hint {
            NavigationHint::Scroll(d) => (
                MachineView {
                    wheel_inputs: (m.wheel_inputs + 1) as u32,
                    mode: ModeView::Turning { direction: d, probe: false, frames: 0 },
                    ..m
                },
                ActionView::Scroll(navigation_delta_spec(NavInput::Full(d))),
            ),
            NavigationHint::Recenter(d) => (
                MachineView {
                    wheel_inputs: (m.wheel_inputs + 1) as u32,
                    mode: ModeView::Turning { direction: d, probe: false, frames: 0 },
                    ..m
                },
                ActionView::Scroll(navigation_delta_spec(NavInput::Full(d))),
            ),
            NavigationHint::ExpectedVisible => failed_step(m, not_found_view(m)),
        }
    }
}

/// A click is sent: counted for the target and in the trail.
pub open spec fn click_spec(m: MachineView, item_id: Seq<char>, first: bool) -> MachineView {
    MachineView {
        clicks: (m.clicks + 1) as u32,
        clicks_on_current: if first {
            1
        } else {
            (m.clicks_on_current + 1) as usize
        },
        hovers_confirmed: if first {
            (m.hovers_confirmed + 1) as u32
        } else {
            m.hovers_confirmed
        },
        mode: ModeView::Verifying { item_id },
        ..enter_view(
            enter_view(m, DirectSelectPhase::Clicking),
            DirectSelectPhase::VerifyingSelection,
        )
    }
}

/// The step of the machine for the event `e`, when the run is still on.
pub open spec fn mode_step(m: MachineView, e: EventView) -> (MachineView, ActionView) {
    match (m.mode, e) {
        (ModeView::Planning, EventView::Page { slots, hint }) => if m.remaining.len() == 0 {
            (
                MachineView {
                    mode: ModeView::WaitingHome,
                    ..enter_view(m, DirectSelectPhase::WaitingTerminalHome)
                },
                ActionView::WaitHome,
            )
        } else {
            let m1 = enter_view(m, DirectSelectPhase::PlanningTarget);
            match next_target(slots, m.remaining, m.remaining.len() as int) {
                Some(t) => (
                    MachineView {
                        mode: ModeView::Relocating { item_id: t.item_id, rect: t.slot.rect },
                        relocations: 1,
                        ..enter_view(m1, DirectSelectPhase::Hovering)
                    },
                    ActionView::MoveCursor(t.slot.rect),
                ),
                None => turn_spec(m1, hint),
            }
        },
        (ModeView::Turning { direction, probe, frames }, EventView::TurnFrame { moved }) => if moved {
            (MachineView { mode: ModeView::Planning, ..m }, ActionView::Observe)
        } else if frames + 1 < NO_MOVEMENT_FRAMES {
            (
                MachineView {
                    mode: ModeView::Turning { direction, probe, frames: (frames + 1) as usize },
                    ..m
                },
                ActionView::Observe,
            )
        } else if !probe && m.wheel_inputs < MAX_WHEEL_INPUTS {
            (
                MachineView {
                    wheel_inputs: (m.wheel_inputs + 1) as u32,
                    mode: ModeView::Turning { direction, probe: true, frames: 0 },
                    ..m
                },
                ActionView::Scroll(navigation_delta_spec(NavInput::Probe(direction))),
            )
        } else {
            failed_step(m, not_found_view(m))
        },
        (ModeView::Relocating { item_id, rect }, EventView::Relocated { slots }) =>
            match visible_target(slots, item_id) {
            None => failed_step(m, FailureView::TargetLostWhileRelocating { item_id }),
            Some(t) => {
            let r2 = t.slot.rect;
            if relocation_moved_spec(rect, r2) {
                if m.relocations < MAX_HOVER_RELOCATIONS {
                    (
                        MachineView {
                            relocations: (m.relocations + 1) as usize,
                            mode: ModeView::Relocating { item_id, rect: r2 },
                            ..m
                        },
                        ActionView::MoveCursor(r2),
                    )
                } else {
                    failed_step(m, FailureView::HoverNotConfirmed { item_id })
                }
            } else {
                (
                    MachineView { mode: ModeView::Hovering { item_id, rect: r2 }, ..m },
                    ActionView::WaitHover,
                )
            }
            },
        },
        (ModeView::Hovering { item_id, rect }, EventView::Hover { confirmed }) => if confirmed {
            (click_spec(m, item_id, true), ActionView::Click)
        } else if m.relocations < MAX_HOVER_RELOCATIONS {
            (
                MachineView {
                    relocations: (m.relocations + 1) as usize,
                    mode: ModeView::Relocating { item_id, rect },
                    ..m
                },
                ActionView::MoveCursor(rect),
            )
        } else {
            failed_step(m, FailureView::HoverNotConfirmed { item_id })
        },
        (ModeView::Verifying { item_id }, EventView::PostClick(p)) => match p {
            PostClickView::Selected => {
                let rem = without(m.remaining, item_id);
                let m1 = MachineView {
                    selected: m.selected.push(item_id),
                    remaining: rem,
                    clicks_on_current: 0,
                    relocations: 0,
                    ..m
                };
                if rem.len() == 0 {
                    (
                        MachineView {
                            mode: ModeView::WaitingHome,
                            ..enter_view(m1, DirectSelectPhase::WaitingTerminalHome)
                        },
                        ActionView::WaitHome,
                    )
                } else {
                    (MachineView { mode: ModeView::Planning, ..m1 }, ActionView::Observe)
                }
            },
            PostClickView::Unchanged { window_closed } => if !window_closed {
                (m, ActionView::Observe)
            } else if m.clicks_on_current < MAX_TARGET_CLICK_ATTEMPTS {
                (click_spec(m, item_id, false), ActionView::Click)
            } else {
                failed_step(
                    m,
                    FailureView::SelectionUnchanged { item_id, attempts: m.clicks_on_current },
                )
            },
            PostClickView::NotEvaluable(detail) => failed_step(
                m,
                FailureView::SelectionNotEvaluable { item_id, detail },
            ),
        },
        (ModeView::WaitingHome, EventView::Home(o)) => if o is Settled {
            (
                MachineView {
                    home_settled: true,
                    mode: ModeView::Finished,
                    ..enter_view(m, DirectSelectPhase::Done)
                },
                ActionView::Finish(OutcomeView::Succeeded(m.selected)),
            )
        } else {
            failed_step(
                m,
                FailureView::TerminalHomeNotReached {
                    detail: terminal_label(o) + "（"@ + decimal(TERMINAL_SETTLE_TIMEOUT_MS as nat)
                        + "）"@,
                },
            )
        },
        _ => failed_step(m, FailureView::Io { detail: "unexpected event"@ }),
    }
}

/// One step of the selection machine: a finished run stays as it is;
/// otherwise a cancel or an I/O failure stops safely, and every other event
/// is handled by the current mode.
pub open spec fn select_step_spec(m: MachineView, e: EventView) -> (MachineView, ActionView) {
    if m.mode is Finished {
        (m, ActionView::Stopped)
    } else {
        match e {
            EventView::Cancelled => failed_step(m, FailureView::Io { detail: "已取消"@ }),
            EventView::IoFailed(d) => failed_step(m, FailureView::Io { detail: d }),
            _ => mode_step(m, e),
        }
    }
}

proof fn lemma_enter_keeps_trail(p: Seq<DirectSelectPhase>, ph: DirectSelectPhase)
    requires
        no_adjacent_repeats(p),
    ensures
        no_adjacent_repeats(
            if p.len() > 0 && p.last() == ph {
                p
            } else {
                p.push(ph)
            },
        ),
{
    if !(p.len() > 0 && p.last() == ph) {
        let q = p.push(ph);
        assert forall|i: int| 0 <= i < q.len() - 1 implies #[trigger] q[i] != q[i + 1] by {
            if i + 1 == p.len() {
                assert(q[i] == p.last());
            } else {
                assert(q[i] == p[i]);
                assert(q[i + 1] == p[i + 1]);
            }
        }
    }
}

/// A machine that has not started, for the targets `ids`.
pub open spec fn fresh_machine(ids: Seq<Seq<char>>, kind: ItemKind) -> MachineView {
    MachineView {
        remaining: ids,
        selected: Seq::empty(),
        kind,
        phase: DirectSelectPhase::Idle,
        phases: Seq::empty(),
        wheel_inputs: 0,
        clicks: 0,
        hovers_confirmed: 0,
        fallbacks: 0,
        mode: ModeView::Planning,
        clicks_on_current: 0,
        relocations: 0,
        home_settled: false,
        initial: ids,
    }
}

/// The label of a failure, by its view.
pub open spec fn failure_label(f: FailureView) -> Seq<char> {
    match f {
        FailureView::TargetNotFound { .. } => "target_not_found"@,
        FailureView::HoverNotConfirmed { .. } => "hover_not_confirmed"@,
        FailureView::TargetLostWhileRelocating { .. } => "target_lost_while_relocating"@,
        FailureView::SelectionUnchanged { .. } => "selection_unchanged"@,
        FailureView::SelectionNotEvaluable { .. } => "selection_not_evaluable"@,
        FailureView::TerminalHomeNotReached { .. } => "terminal_home_not_reached"@,
        FailureView::Io { .. } => "io_error"@,
    }
}

/// The message of a failure, by its view.
pub open spec fn failure_message(f: FailureView) -> Seq<char> {
    match f {
        FailureView::TargetNotFound { item_id, wheel_inputs } => "目标「"@ + item_id + "」在 "@
            + decimal(wheel_inputs as nat) + " 次滚轮输入内未找到（列表边界）"@,
        FailureView::HoverNotConfirmed { item_id } => "目标「"@ + item_id + "」悬停始终未确认"@,
        FailureView::TargetLostWhileRelocating { item_id } => "目标「"@ + item_id
            + "」在悬停重定位期间离开可见视口"@,
        FailureView::SelectionUnchanged { item_id, attempts } => "目标「"@ + item_id + "」在 "@
            + decimal(attempts as nat) + " 次点击后仍未观察到选中"@,
        FailureView::SelectionNotEvaluable { item_id, detail } => "目标「"@ + item_id
            + "」点击后无法验证: "@ + detail,
        FailureView::TerminalHomeNotReached { detail } => "最终未确认回到 Home: "@ + detail,
        FailureView::Io { detail } => "IO 失败: "@ + detail,
    }
}

/// A failure's label and message are those of its view.
pub proof fn lemma_failure_texts(f: DirectSelectFailure)
    ensures
        f.label_spec() == failure_label(failure_view(f)),
        f.message_spec() == failure_message(failure_view(f)),
{
}

/// What the machine confirms is what it was made for: the ids confirmed
/// have no repeats, are among the targets and no longer left; every id left
/// is a target; every target is confirmed or left; the target in hand is one
/// still left. Clicks: at most three per confirmed target plus those on the
/// target in hand, which exists while any were sent on it; every confirmed
/// hover came with a click.
pub open spec fn selection_law(m: MachineView) -> bool {
    &&& m.selected.no_duplicates()
    &&& forall|x: Seq<char>| #[trigger] m.selected.contains(x) ==> m.initial.contains(x)
        && !m.remaining.contains(x)
    &&& forall|x: Seq<char>| #[trigger] m.remaining.contains(x) ==> m.initial.contains(x)
    &&& forall|x: Seq<char>| #[trigger] m.initial.contains(x) ==> m.selected.contains(x)
        || m.remaining.contains(x)
    &&& match m.mode {
        ModeView::Relocating { item_id, .. } => m.remaining.contains(item_id),
        ModeView::Hovering { item_id, .. } => m.remaining.contains(item_id),
        ModeView::Verifying { item_id } => m.remaining.contains(item_id),
        _ => true,
    }
    &&& m.clicks <= MAX_TARGET_CLICK_ATTEMPTS * m.selected.len() + m.clicks_on_current
    &&& m.clicks_on_current > 0 ==> m.remaining.len() > 0
    &&& (m.mode is Verifying || m.mode is Finished) || m.clicks_on_current == 0
    &&& m.hovers_confirmed <= m.clicks
}

proof fn lemma_confirm_keeps_law(m: MachineView, id: Seq<char>, n: MachineView)
    requires
        selection_law(m),
        m.remaining.contains(id),
        m.clicks_on_current <= MAX_TARGET_CLICK_ATTEMPTS,
        n.selected == m.selected.push(id),
        n.remaining == without(m.remaining, id),
        n.initial == m.initial,
        n.clicks == m.clicks,
        n.hovers_confirmed == m.hovers_confirmed,
        n.clicks_on_current == 0,
        n.mode is Planning || n.mode is WaitingHome,
    ensures
        selection_law(n),
{
    let sel = m.selected.push(id);
    let rem = without(m.remaining, id);
    assert(!m.selected.contains(id));
    assert forall|i: int, j: int| 0 <= i < sel.len() && 0 <= j < sel.len() && i != j implies sel[i]
        != sel[j] by {
        if i == m.selected.len() as int {
            assert(m.selected.contains(sel[j]));
        } else if j == m.selected.len() as int {
            assert(m.selected.contains(sel[i]));
        }
    }
    assert forall|x: Seq<char>| #[trigger] sel.contains(x) implies m.initial.contains(x)
        && !rem.contains(x) by {
        lemma_confirmed_target_is_gone(m.remaining, id, x);
        assert(m.remaining.contains(id));
        if x != id {
            let k = choose|k: int| 0 <= k < sel.len() && sel[k] == x;
            assert(k < m.selected.len());
            assert(m.selected[k] == x);
            assert(m.selected.contains(x));
        }
    }
    assert forall|x: Seq<char>| #[trigger] rem.contains(x) implies m.initial.contains(x) by {
        lemma_confirmed_target_is_gone(m.remaining, id, x);
    }
    assert forall|x: Seq<char>| #[trigger] m.initial.contains(x) implies sel.contains(x)
        || rem.contains(x) by {
        lemma_confirmed_target_is_gone(m.remaining, id, x);
        if x == id {
            assert(sel[m.selected.len() as int] == id);
        } else if m.selected.contains(x) {
            let k = choose|k: int| 0 <= k < m.selected.len() && m.selected[k] == x;
            assert(sel[k] == x);
        }
    }
}

proof fn lemma_failed_keeps_law(m: MachineView, f: FailureView)
    requires
        selection_law(m),
    ensures
        selection_law(failed_step(m, f).0),
{
}

proof fn lemma_step_keeps_law(m: MachineView, e: EventView)
    requires
        machine_wf(m),
        selection_law(m),
        m.clicks < u32::MAX,
        m.hovers_confirmed < u32::MAX,
    ensures
        selection_law(select_step_spec(m, e).0),
{
    if m.mode is Finished {
        return;
    }
    match e {
        EventView::Cancelled => {
            lemma_failed_keeps_law(m, FailureView::Io { detail: "已取消"@ });
            return;
        },
        EventView::IoFailed(d) => {
            lemma_failed_keeps_law(m, FailureView::Io { detail: d });
            return;
        },
        _ => {},
    }
    assert(select_step_spec(m, e) == mode_step(m, e));
    match (m.mode, e) {
        (ModeView::Planning, EventView::Page { slots, hint }) => {
            lemma_next_target_in_remaining(slots, m.remaining, m.remaining.len() as int);
            assert(m.remaining.len() == 0 ==> selection_law(mode_step(m, e).0));
            if m.remaining.len() > 0 {
                let m1 = enter_view(m, DirectSelectPhase::PlanningTarget);
                match next_target(slots, m.remaining, m.remaining.len() as int) {
                    Some(t) => {
                        let j = choose|j: int| 0 <= j < m.remaining.len() && m.remaining[j] == t.item_id;
                        assert(m.remaining.contains(t.item_id));
                        assert(selection_law(mode_step(m, e).0));
                    },
                    None => {
                        if m1.wheel_inputs < MAX_WHEEL_INPUTS && !(hint is ExpectedVisible) {
                        } else {
                            lemma_failed_keeps_law(m1, not_found_view(m1));
                        }
                        assert(selection_law(mode_step(m, e).0));
                    },
                }
            }
        },
        (ModeView::Turning { direction, probe, frames }, EventView::TurnFrame { moved }) => {
            lemma_failed_keeps_law(m, not_found_view(m));
            assert(selection_law(mode_step(m, e).0));
        },
        (ModeView::Relocating { item_id, rect }, EventView::Relocated { slots }) => {
            lemma_failed_keeps_law(m, FailureView::TargetLostWhileRelocating { item_id });
            lemma_failed_keeps_law(m, FailureView::HoverNotConfirmed { item_id });
            assert(selection_law(mode_step(m, e).0));
        },
        (ModeView::Hovering { item_id, rect }, EventView::Hover { confirmed }) => {
            lemma_failed_keeps_law(m, FailureView::HoverNotConfirmed { item_id });
            assert(selection_law(mode_step(m, e).0));
        },
        (ModeView::Verifying { item_id }, EventView::PostClick(p)) => {
            match p {
                PostClickView::Selected => {
                    lemma_confirm_keeps_law(m, item_id, mode_step(m, e).0);
                },
                PostClickView::Unchanged { window_closed } => {
                    lemma_failed_keeps_law(
                        m,
                        FailureView::SelectionUnchanged { item_id, attempts: m.clicks_on_current },
                    );
                    assert(selection_law(mode_step(m, e).0));
                },
                PostClickView::NotEvaluable(detail) => {
                    lemma_failed_keeps_law(
                        m,
                        FailureView::SelectionNotEvaluable { item_id, detail },
                    );
                },
            }
        },
        (ModeView::WaitingHome, EventView::Home(o)) => {
            if !(o is Settled) {
                lemma_failed_keeps_law(
                    m,
                    FailureView::TerminalHomeNotReached {
                        detail: terminal_label(o) + "（"@ + decimal(TERMINAL_SETTLE_TIMEOUT_MS as nat)
                            + "）"@,
                    },
                );
            }
        },
        _ => {
            lemma_failed_keeps_law(m, FailureView::Io { detail: "unexpected event"@ });
        },
    }
}

proof fn lemma_click_cap_view(m: MachineView)
    requires
        machine_wf(m),
        selection_law(m),
    ensures
        m.clicks <= MAX_TARGET_CLICK_ATTEMPTS * m.initial.len(),
{
    let ss = m.selected.to_set();
    let is = m.initial.to_set();
    m.selected.unique_seq_to_set();
    m.initial.lemma_cardinality_of_set();
    assert(ss.subset_of(is)) by {
        assert forall|x: Seq<char>| ss.contains(x) implies is.contains(x) by {
            assert(m.selected.contains(x));
        }
    }
    vstd::set_lib::lemma_len_subset(ss, is);
    if m.clicks_on_current > 0 {
        let x = m.remaining[0];
        assert(m.remaining.contains(x));
        assert(!m.selected.contains(x));
        assert(m.initial.contains(x));
        ss.lemma_subset_not_in_lt(is, x);
    }
}

/// A run that left no target confirmed exactly its targets: each once, and
/// nothing else; for targets without repeats the ids confirmed are a
/// permutation of them.
pub proof fn lemma_done_selects_exactly_the_targets(m: MachineView)
    requires
        selection_law(m),
        m.remaining.len() == 0,
    ensures
        m.selected.no_duplicates(),
        forall|x: Seq<char>| m.selected.contains(x) <==> m.initial.contains(x),
        m.initial.no_duplicates() ==> m.selected.len() == m.initial.len(),
        m.initial.no_duplicates() ==> m.selected.to_multiset() == m.initial.to_multiset(),
{
    assert forall|x: Seq<char>| m.selected.contains(x) <==> m.initial.contains(x) by {
        if m.initial.contains(x) {
            assert(!m.remaining.contains(x));
        }
    }
    if m.initial.no_duplicates() {
        assert(m.selected.to_set() =~= m.initial.to_set());
        m.selected.unique_seq_to_set();
        m.initial.unique_seq_to_set();
        m.selected.lemma_multiset_has_no_duplicates();
        m.initial.lemma_multiset_has_no_duplicates();
        assert forall|x: Seq<char>| m.selected.to_multiset().count(x) == m.initial.to_multiset().count(x) by {
            broadcast use vstd::seq_lib::to_multiset_contains;
            if m.selected.contains(x) {
                assert(m.selected.to_multiset().contains(x));
                assert(m.initial.to_multiset().contains(x));
            } else {
                assert(!m.selected.to_multiset().contains(x));
                assert(!m.initial.to_multiset().contains(x));
            }
        }
        assert(m.selected.to_multiset() =~= m.initial.to_multiset());
    }
}

/// The bounded direct-selection state machine: targets left (in preset
/// order), ids confirmed, phase, trail, wheel inputs, and where it stands
/// on the current target.
pub struct DirectSelectMachine {
    remaining: Vec<String>,
    item_kind: ItemKind,
    selected: Vec<String>,
    phase: DirectSelectPhase,
    trace: DirectSelectTrace,
    wheel_inputs: u32,
    mode: SelectMode,
    clicks_on_current: usize,
    relocations: usize,
    home_settled: bool,
    /// The targets the machine was made for.
    initial: Ghost<Seq<Seq<char>>>,
}

impl View for DirectSelectMachine {
    type V = MachineView;

    closed spec fn view(&self) -> MachineView {
        MachineView {
            remaining: string_views(self.remaining@),
            selected: string_views(self.selected@),
            kind: self.item_kind,
            phase: self.phase,
            phases: self.trace.phases@,
            wheel_inputs: self.wheel_inputs,
            clicks: self.trace.clicks,
            hovers_confirmed: self.trace.hovers_confirmed,
            fallbacks: self.trace.fallbacks,
            mode: self.mode@,
            clicks_on_current: self.clicks_on_current,
            relocations: self.relocations,
            home_settled: self.home_settled,
            initial: self.initial@,
        }
    }
}

/// The hard caps and the shape of the record: wheel inputs, clicks on a
/// target and cursor placements on a target stay within their caps; no
/// phase follows itself in the trail, which ends with the current phase; a
/// page turn always has a target left; home is awaited only when none is.
pub open spec fn machine_wf(m: MachineView) -> bool {
    &&& m.wheel_inputs <= MAX_WHEEL_INPUTS
    &&& m.clicks_on_current <= MAX_TARGET_CLICK_ATTEMPTS
    &&& m.relocations <= MAX_HOVER_RELOCATIONS
    &&& no_adjacent_repeats(m.phases)
    &&& m.phases.len() > 0 ==> m.phases.last() == m.phase
    &&& m.mode is Turning ==> m.remaining.len() > 0
    &&& m.mode is WaitingHome ==> m.remaining.len() == 0
}

impl DirectSelectMachine {
    /// The record is consistent (see `machine_wf`), and the trail counts the
    /// same wheel inputs as the machine.
    pub closed spec fn wf(&self) -> bool {
        &&& self.core_wf()
        &&& selection_law(self@)
    }

    /// The caps and the shape of the record, without the selection law.
    closed spec fn core_wf(&self) -> bool {
        &&& self.trace.wheel_inputs == self.wheel_inputs
        &&& machine_wf(self@)
    }

    /// The click cap over a whole run: at most three clicks per target the
    /// machine was made for.
    pub proof fn lemma_click_cap(&self)
        requires
            self.wf(),
        ensures
            self@.clicks <= MAX_TARGET_CLICK_ATTEMPTS * self@.initial.len(),
            self@.wheel_inputs <= MAX_WHEEL_INPUTS,
    {
        lemma_click_cap_view(self@);
    }

    /// The law and the caps of a consistent machine.
    pub proof fn lemma_wf_law(&self)
        requires
            self.wf(),
        ensures
            selection_law(self@),
            machine_wf(self@),
    {
    }

    /// A machine that has not started, for `targets` in order.
    pub fn new(targets: Vec<String>, item_kind: ItemKind) -> (r: Self)
        ensures
            r.wf(),
            r@ == fresh_machine(string_views(targets@), item_kind),
    {
        let ghost init = string_views(targets@);
        DirectSelectMachine {
            remaining: targets,
            item_kind,
            selected: Vec::new(),
            phase: DirectSelectPhase::Idle,
            trace: DirectSelectTrace::new(),
            wheel_inputs: 0,
            mode: SelectMode::Planning,
            clicks_on_current: 0,
            relocations: 0,
            home_settled: false,
            initial: Ghost(init),
        }
    }

    /// Current phase.
    pub fn phase(&self) -> (r: DirectSelectPhase)
        ensures
            r == self@.phase,
    {
        self.phase
    }

    /// Where the machine stands.
    pub fn mode(&self) -> (r: &SelectMode)
        ensures
            r@ == self@.mode,
    {
        &self.mode
    }

    /// The trail so far.
    pub fn trace(&self) -> (r: &DirectSelectTrace)
        requires
            self.wf(),
        ensures
            r.phases@ == self@.phases,
            r.wheel_inputs == self@.wheel_inputs,
            r.clicks == self@.clicks,
            r.hovers_confirmed == self@.hovers_confirmed,
            r.fallbacks == self@.fallbacks,
            no_adjacent_repeats(r.phases@),
    {
        &self.trace
    }

    /// Targets not yet confirmed, in preset order.
    pub fn remaining(&self) -> (r: &[String])
        ensures
            string_views(r@) == self@.remaining,
    {
        self.remaining.as_slice()
    }

    /// Ids confirmed so far, in order.
    pub fn selected(&self) -> (r: &[String])
        ensures
            string_views(r@) == self@.selected,
    {
        self.selected.as_slice()
    }

    /// Wheel inputs sent so far (never more than `MAX_WHEEL_INPUTS`).
    pub fn wheel_inputs(&self) -> (r: u32)
        requires
            self.wf(),
        ensures
            r == self@.wheel_inputs,
            r <= MAX_WHEEL_INPUTS,
    {
        self.wheel_inputs
    }

    /// Every target has been confirmed.
    pub fn is_done(&self) -> (r: bool)
        ensures
            r == (self@.remaining.len() == 0),
    {
        self.remaining.len() == 0
    }

    /// Enters `phase`.
    fn enter(&mut self, phase: DirectSelectPhase)
        requires
            old(self).core_wf(),
        ensures
            final(self).core_wf(),
            final(self)@ == enter_view(old(self)@, phase),
    {
        proof {
            lemma_enter_keeps_trail(self.trace.phases@, phase);
        }
        self.trace.enter(phase);
        self.phase = phase;
    }

    /// Stops safely with `failure`.
    fn fail_with(&mut self, failure: DirectSelectFailure) -> (a: SelectAction)
        requires
            old(self).core_wf(),
        ensures
            final(self).core_wf(),
            (final(self)@, a@) == failed_step(old(self)@, failure_view(failure)),
    {
        let ghost m = self@;
        self.enter(DirectSelectPhase::Failed);
        self.mode = SelectMode::Finished;
        let a = SelectAction::Finish(
            DirectSelectOutcome::Failed { failure, selected: copy_ids(&self.selected) },
        );
        assert(self@ =~= failed_step(m, failure_view(failure)).0);
        a
    }

    /// The first target left was not found within the wheel budget.
    fn not_found(&self) -> (r: DirectSelectFailure)
        requires
            self@.remaining.len() > 0,
        ensures
            failure_view(r) == not_found_view(self@),
    {
        assert(self@.remaining[0] == self.remaining@[0]@);
        DirectSelectFailure::TargetNotFound {
            item_id: self.remaining[0].clone(),
            wheel_inputs: self.wheel_inputs,
        }
    }

    /// Sends a click on `item_id` (the first one after a confirmed hover, or
    /// a retry).
    fn click(&mut self, item_id: String, first: bool) -> (a: SelectAction)
        requires
            old(self).core_wf(),
            old(self)@.clicks < u32::MAX,
            old(self)@.hovers_confirmed < u32::MAX,
            first || old(self)@.clicks_on_current < MAX_TARGET_CLICK_ATTEMPTS,
            !(old(self)@.mode is Turning),
            !(old(self)@.mode is WaitingHome),
        ensures
            final(self).core_wf(),
            final(self)@ == click_spec(old(self)@, item_id@, first),
            a@ == ActionView::Click,
    {
        let ghost m = self@;
        self.enter(DirectSelectPhase::Clicking);
        self.enter(DirectSelectPhase::VerifyingSelection);
        self.trace.clicks = self.trace.clicks + 1;
        if first {
            self.clicks_on_current = 1;
            self.trace.hovers_confirmed = self.trace.hovers_confirmed + 1;
        } else {
            self.clicks_on_current = self.clicks_on_current + 1;
        }
        self.mode = SelectMode::Verifying { item_id };
        assert(self@ =~= click_spec(m, item_id@, first));
        SelectAction::Click
    }

    /// No target visible: scroll as the map advises, within the budget.
    fn turn(&mut self, hint: NavigationHint) -> (a: SelectAction)
        requires
            old(self).core_wf(),
            old(self)@.remaining.len() > 0,
        ensures
            final(self).core_wf(),
            (final(self)@, a@) == turn_spec(old(self)@, hint),
    {
        let ghost m = self@;
        if self.wheel_inputs >= MAX_WHEEL_INPUTS {
            let f = self.not_found();
            return self.fail_with(f);
        }
        let direction = match hint {
            NavigationHint::Scroll(d) => d,
            NavigationHint::Recenter(d) => d,
            NavigationHint::ExpectedVisible => {
                let f = self.not_found();
                return self.fail_with(f);
            },
        };
        self.wheel_inputs = self.wheel_inputs + 1;
        self.trace.wheel_inputs = self.trace.wheel_inputs + 1;
        self.mode = SelectMode::Turning { direction, probe: false, frames: 0 };
        let delta = navigation_delta(NavInput::Full(direction));
        assert(self@ =~= turn_spec(m, hint).0);
        SelectAction::Scroll(delta)
    }

    /// A page in `Planning`: wait for home when no target is left, else go
    /// for the next visible target, else turn the page.
    fn on_page(&mut self, slots: Vec<SlotRef>, hint: NavigationHint) -> (a: SelectAction)
        requires
            old(self).core_wf(),
            old(self)@.mode is Planning,
        ensures
            final(self).core_wf(),
            (final(self)@, a@) == mode_step(
                old(self)@,
                EventView::Page { slots: slot_views(slots@), hint },
            ),
    {
        if self.remaining.len() == 0 {
            self.enter(DirectSelectPhase::WaitingTerminalHome);
            self.mode = SelectMode::WaitingHome;
            return SelectAction::WaitHome;
        }
        assert(id_views(self.remaining@) =~= string_views(self.remaining@));
        let target = next_visible_target(slots.as_slice(), self.remaining.as_slice(), self.item_kind);
        self.enter(DirectSelectPhase::PlanningTarget);
        match target {
            Some(t) => {
                let rect = t.slot.rect;
                self.enter(DirectSelectPhase::Hovering);
                self.mode = SelectMode::Relocating { item_id: t.item_id, rect };
                self.relocations = 1;
                SelectAction::MoveCursor(rect)
            },
            None => self.turn(hint),
        }
    }

    /// A frame after a scroll.
    fn on_turn_frame(
        &mut self,
        direction: ScrollDirection,
        probe: bool,
        frames: usize,
        moved: bool,
    ) -> (a: SelectAction)
        requires
            old(self).core_wf(),
            old(self)@.mode == (ModeView::Turning { direction, probe, frames }),
        ensures
            final(self).core_wf(),
            (final(self)@, a@) == mode_step(old(self)@, EventView::TurnFrame { moved }),
    {
        if moved {
            self.mode = SelectMode::Planning;
            SelectAction::Observe
        } else if frames < NO_MOVEMENT_FRAMES - 1 {
            self.mode = SelectMode::Turning { direction, probe, frames: frames + 1 };
            SelectAction::Observe
        } else if !probe && self.wheel_inputs < MAX_WHEEL_INPUTS {
            self.wheel_inputs = self.wheel_inputs + 1;
            self.trace.wheel_inputs = self.trace.wheel_inputs + 1;
            self.mode = SelectMode::Turning { direction, probe: true, frames: 0 };
            SelectAction::Scroll(navigation_delta(NavInput::Probe(direction)))
        } else {
            let f = self.not_found();
            self.fail_with(f)
        }
    }

    /// A frame after moving the cursor onto `item_id`.
    fn on_relocated(&mut self, item_id: String, rect: ImageRect, slots: Vec<SlotRef>) -> (a:
        SelectAction)
        requires
            old(self).core_wf(),
            old(self)@.mode == (ModeView::Relocating { item_id: item_id@, rect }),
        ensures
            final(self).core_wf(),
            (final(self)@, a@) == mode_step(
                old(self)@,
                EventView::Relocated { slots: slot_views(slots@) },
            ),
    {
        match find_visible_target(slots.as_slice(), item_id.as_str(), self.item_kind) {
            None => self.fail_with(DirectSelectFailure::TargetLostWhileRelocating { item_id }),
            Some(t) => {
                let r2 = t.slot.rect;
                if relocation_moved(rect, r2) {
                    if self.relocations < MAX_HOVER_RELOCATIONS {
                        self.relocations = self.relocations + 1;
                        self.mode = SelectMode::Relocating { item_id, rect: r2 };
                        SelectAction::MoveCursor(r2)
                    } else {
                        self.fail_with(DirectSelectFailure::HoverNotConfirmed { item_id })
                    }
                } else {
                    self.mode = SelectMode::Hovering { item_id, rect: r2 };
                    SelectAction::WaitHover
                }
            },
        }
    }

    /// The hover verdict on `item_id`.
    fn on_hover(&mut self, item_id: String, rect: ImageRect, confirmed: bool) -> (a: SelectAction)
        requires
            old(self).core_wf(),
            old(self)@.clicks < u32::MAX,
            old(self)@.hovers_confirmed < u32::MAX,
            old(self)@.mode == (ModeView::Hovering { item_id: item_id@, rect }),
        ensures
            final(self).core_wf(),
            (final(self)@, a@) == mode_step(old(self)@, EventView::Hover { confirmed }),
    {
        if confirmed {
            self.click(item_id, true)
        } else if self.relocations < MAX_HOVER_RELOCATIONS {
            self.relocations = self.relocations + 1;
            self.mode = SelectMode::Relocating { item_id, rect };
            SelectAction::MoveCursor(rect)
        } else {
            self.fail_with(DirectSelectFailure::HoverNotConfirmed { item_id })
        }
    }

    /// What a frame after the click on `item_id` showed.
    fn on_post_click(&mut self, item_id: String, p: PostClick) -> (a: SelectAction)
        requires
            old(self).core_wf(),
            old(self)@.clicks < u32::MAX,
            old(self)@.hovers_confirmed < u32::MAX,
            old(self)@.mode == (ModeView::Verifying { item_id: item_id@ }),
        ensures
            final(self).core_wf(),
            (final(self)@, a@) == mode_step(old(self)@, EventView::PostClick(post_click_view(p))),
    {
        match p {
            PostClick::Selected => {
                self.confirm_selected(item_id.as_str());
                self.clicks_on_current = 0;
                self.relocations = 0;
                if self.remaining.len() == 0 {
                    self.enter(DirectSelectPhase::WaitingTerminalHome);
                    self.mode = SelectMode::WaitingHome;
                    SelectAction::WaitHome
                } else {
                    self.mode = SelectMode::Planning;
                    SelectAction::Observe
                }
            },
            PostClick::Unchanged { window_closed } => {
                if !window_closed {
                    SelectAction::Observe
                } else if self.clicks_on_current < MAX_TARGET_CLICK_ATTEMPTS {
                    self.click(item_id, false)
                } else {
                    let attempts = self.clicks_on_current;
                    self.fail_with(DirectSelectFailure::SelectionUnchanged { item_id, attempts })
                }
            },
            PostClick::NotEvaluable(detail) => self.fail_with(
                DirectSelectFailure::SelectionNotEvaluable { item_id, detail },
            ),
        }
    }

    /// The end of the wait for home.
    fn on_home(&mut self, o: TerminalHomeOutcome) -> (a: SelectAction)
        requires
            old(self).core_wf(),
            old(self)@.mode is WaitingHome,
        ensures
            final(self).core_wf(),
            (final(self)@, a@) == mode_step(old(self)@, EventView::Home(o)),
    {
        if o.is_settled() {
            self.enter(DirectSelectPhase::Done);
            self.mode = SelectMode::Finished;
            self.home_settled = true;
            SelectAction::Finish(DirectSelectOutcome::Succeeded { selected: copy_ids(&self.selected) })
        } else {
            let mut detail = String::new();
            push_str(&mut detail, o.label());
            push_str(&mut detail, "（");
            push_decimal(&mut detail, TERMINAL_SETTLE_TIMEOUT_MS);
            push_str(&mut detail, "）");
            self.fail_with(DirectSelectFailure::TerminalHomeNotReached { detail })
        }
    }

    /// Handles one event and says what the I/O is to do next.
    ///
    /// The target is always chosen by the machine among the targets left
    /// (`next_visible_target`), never taken from the I/O. Success is reported
    /// only once every target was confirmed and home was seen settled; every
    /// cap (wheel inputs, cursor placements, clicks per target) ends in a safe
    /// failure; a click is only ever sent after a confirmed hover, or again on
    /// the same target when the click changed nothing.
    pub fn step(&mut self, ev: SelectEvent) -> (a: SelectAction)
        requires
            old(self).wf(),
            old(self)@.clicks < u32::MAX,
            old(self)@.hovers_confirmed < u32::MAX,
        ensures
            final(self).wf(),
            (final(self)@, a@) == select_step_spec(old(self)@, ev@),
            final(self)@.wheel_inputs <= MAX_WHEEL_INPUTS,
            final(self)@.clicks_on_current <= MAX_TARGET_CLICK_ATTEMPTS,
            final(self)@.relocations <= MAX_HOVER_RELOCATIONS,
            a@ matches ActionView::Finish(OutcomeView::Succeeded(_)) ==> final(self)@.remaining.len() == 0,
            a@ matches ActionView::Finish(OutcomeView::Succeeded(_)) ==> final(self)@.home_settled,
            a@ is Click ==> (ev@ matches EventView::Hover { confirmed: true }) || (ev@ matches EventView::PostClick(PostClickView::Unchanged { window_closed: true })),
            final(self)@.initial == old(self)@.initial,
            final(self)@.kind == old(self)@.kind,
            a@ matches ActionView::Finish(OutcomeView::Succeeded(sel)) ==> sel == final(self)@.selected,
            a@ matches ActionView::Finish(OutcomeView::Failed(_, sel)) ==> sel == final(self)@.selected,
    {
        proof {
            lemma_step_keeps_law(self@, ev@);
        }
        if let SelectMode::Finished = self.mode {
            return SelectAction::Stopped;
        }
        match ev {
            SelectEvent::Cancelled => {
                let mut d = String::new();
                push_str(&mut d, "已取消");
                return self.fail_with(DirectSelectFailure::Io { detail: d });
            },
            SelectEvent::IoFailed(detail) => {
                return self.fail_with(DirectSelectFailure::Io { detail });
            },
            _ => {},
        }
        let mode = self.mode.duplicate();
        match (mode, ev) {
            (SelectMode::Planning, SelectEvent::Page { slots, hint }) => self.on_page(slots, hint),
            (SelectMode::Turning { direction, probe, frames }, SelectEvent::TurnFrame { moved }) => {
                self.on_turn_frame(direction, probe, frames, moved)
            },
            (SelectMode::Relocating { item_id, rect }, SelectEvent::Relocated { slots }) => {
                self.on_relocated(item_id, rect, slots)
            },
            (SelectMode::Hovering { item_id, rect }, SelectEvent::Hover { confirmed }) => {
                self.on_hover(item_id, rect, confirmed)
            },
            (SelectMode::Verifying { item_id }, SelectEvent::PostClick(p)) => {
                self.on_post_click(item_id, p)
            },
            (SelectMode::WaitingHome, SelectEvent::Home(o)) => self.on_home(o),
            _ => {
                let mut d = String::new();
                push_str(&mut d, "unexpected event");
                self.fail_with(DirectSelectFailure::Io { detail: d })
            },
        }
    }

    /// Records `item_id` as confirmed: appended to the selected ids and
    /// removed (every occurrence) from the targets left.
    fn confirm_selected(&mut self, item_id: &str)
        requires
            old(self).core_wf(),
        ensures
            final(self)@ == (MachineView {
                selected: old(self)@.selected.push(item_id@),
                remaining: without(old(self)@.remaining, item_id@),
                ..old(self)@
            }),
            final(self).trace.wheel_inputs == final(self).wheel_inputs,
    {
        let ghost before = self.selected@;
        let mut id = String::new();
        push_str(&mut id, item_id);
        self.selected.push(id);
        assert(string_views(self.selected@) =~= string_views(before).push(item_id@));
        let ghost rv = string_views(self.remaining@);
        let mut kept: Vec<String> = Vec::new();
        let mut i: usize = 0;
        while i < self.remaining.len()
            invariant
                i <= self.remaining@.len(),
                rv == string_views(self.remaining@),
                string_views(kept@) == without(rv.take(i as int), item_id@),
            decreases self.remaining@.len() - i,
        {
            proof {
                assert(rv.take(i + 1).drop_last() =~= rv.take(i as int));
                assert(rv.take(i + 1).last() == rv[i as int]);
                assert(rv[i as int] == self.remaining@[i as int]@);
            }
            if !str_eq(self.remaining[i].as_str(), item_id) {
                let ghost kb = kept@;
                kept.push(self.remaining[i].clone());
                assert(string_views(kept@) =~= string_views(kb).push(rv[i as int]));
            }
            i = i + 1;
        }
        assert(rv.take(rv.len() as int) =~= rv);
        self.remaining = kept;
    }
}

/// A copy of a list of ids.
fn copy_ids(v: &Vec<String>) -> (r: Vec<String>)
    ensures
        string_views(r@) == string_views(v@),
{
    let mut out: Vec<String> = Vec::new();
    let mut i: usize = 0;
    while i < v.len()
        invariant
            i <= v@.len(),
            string_views(out@) == string_views(v@).take(i as int),
        decreases v@.len() - i,
    {
        let ghost ob = out@;
        let c = v[i].clone();
        assert(c@ == v@[i as int]@);
        out.push(c);
        assert(string_views(out@) =~= string_views(ob).push(c@));
        assert(string_views(v@).take(i + 1) =~= string_views(v@).take(i as int).push(v@[i as int]@));
        assert(string_views(out@) =~= string_views(v@).take(i + 1));
        i = i + 1;
    }
    assert(string_views(v@).take(v@.len() as int) =~= string_views(v@));
    out
}

/// A relocated target moved if either coordinate changed by more than the
/// position tolerance.
pub open spec fn relocation_moved_spec(before: ImageRect, after: ImageRect) -> bool {
    let dx = after.x - before.x;
    let dy = after.y - before.y;
    (dx > TARGET_POSITION_TOLERANCE || -dx > TARGET_POSITION_TOLERANCE) || (dy
        > TARGET_POSITION_TOLERANCE || -dy > TARGET_POSITION_TOLERANCE)
}

/// Whether the target moved while the cursor was being placed on it (then
/// the hover wait starts over).
pub fn relocation_moved(before: ImageRect, after: ImageRect) -> (r: bool)
    ensures
        r == relocation_moved_spec(before, after),
{
    let dx: i64 = after.x as i64 - before.x as i64;
    let dy: i64 = after.y as i64 - before.y as i64;
    dx > TARGET_POSITION_TOLERANCE as i64 || -dx > TARGET_POSITION_TOLERANCE as i64 || dy
        > TARGET_POSITION_TOLERANCE as i64 || -dy > TARGET_POSITION_TOLERANCE as i64
}

/// After a click with no change seen, the verification window closes once
/// both the confirm timeout has passed and enough frames were observed.
pub fn post_click_window_closed(elapsed_ms: u64, observations: u32) -> (r: bool)
    ensures
        r == (elapsed_ms >= POST_CLICK_CONFIRM_TIMEOUT_MS && observations
            >= POST_CLICK_MIN_OBSERVATIONS),
{
    elapsed_ms >= POST_CLICK_CONFIRM_TIMEOUT_MS && observations >= POST_CLICK_MIN_OBSERVATIONS
}


/// Law: while planning, with a target left, wheel budget left and no target
/// on the page, the machine turns the page the way the list map advises
/// (`Scroll(d)` or `Recenter(d)`): a full page of wheel toward `d` (up is
/// positive, down negative), and it records that it is turning toward `d`.
pub proof fn lemma_turn_follows_hint(
    m: MachineView,
    slots: Seq<SlotRefView>,
    d: ScrollDirection,
    recenter: bool,
)
    requires
        m.mode is Planning,
        m.remaining.len() > 0,
        m.wheel_inputs < MAX_WHEEL_INPUTS,
        next_target(slots, m.remaining, m.remaining.len() as int) is None,
    ensures
        ({
            let hint = if recenter { NavigationHint::Recenter(d) } else { NavigationHint::Scroll(d) };
            let r = select_step_spec(m, EventView::Page { slots, hint });
            &&& r.1 == ActionView::Scroll(
                if d == ScrollDirection::Up { PAGE_WHEEL_DELTA as int } else { -(PAGE_WHEEL_DELTA as int) },
            )
            &&& r.0.mode == (ModeView::Turning { direction: d, probe: false, frames: 0 })
            &&& r.0.wheel_inputs == m.wheel_inputs + 1
            &&& r.0.remaining == m.remaining
            &&& r.0.selected == m.selected
        }),
{
}


/// Law: while planning with a target left and none on the page, the machine
/// never scrolls blindly: when the list map says the target should already
/// be visible, or the wheel budget is spent, it stops with the first target
/// left not found, reporting what was confirmed so far.
pub proof fn lemma_no_blind_turn(m: MachineView, slots: Seq<SlotRefView>, hint: NavigationHint)
    requires
        m.mode is Planning,
        m.remaining.len() > 0,
        next_target(slots, m.remaining, m.remaining.len() as int) is None,
        hint is ExpectedVisible || m.wheel_inputs >= MAX_WHEEL_INPUTS,
    ensures
        ({
            let r = select_step_spec(m, EventView::Page { slots, hint });
            &&& r.1 == ActionView::Finish(
                OutcomeView::Failed(
                    FailureView::TargetNotFound { item_id: m.remaining[0], wheel_inputs: m.wheel_inputs },
                    m.selected,
                ),
            )
            &&& r.0.mode is Finished
            &&& r.0.wheel_inputs == m.wheel_inputs
        }),
{
}

} // verus!
