//! A full assembly session: what it plans to assemble, the evidence it
//! reports, and its steps (open an empty home slot, run the selection
//! machine, next target), each decided here from what the I/O saw.
use vstd::prelude::*;
use crate::loadout_sync::direct_select::machine::{
    failure_label, failure_message, fresh_machine, lemma_done_selects_exactly_the_targets,
    lemma_failure_texts, select_step_spec, selection_law, ActionView, DirectSelectMachine,
    DirectSelectOutcome, DirectSelectPhase, DirectSelectTrace, FailureView, MachineView,
    OutcomeView, SelectAction, SelectEvent,
};
use crate::loadout_sync::direct_select::selection_verify::{MAX_TARGET_CLICK_ATTEMPTS, MAX_WHEEL_INPUTS};
use crate::loadout_sync::reference_vision::ItemKind;
use crate::text::{
    contains_seq, contains_str, decimal, join, push_decimal, push_joined, push_str, string_of,
    string_views, strings_contain,
};

verus! {

/// What one session assembles (catalog ids, not display names).
#[derive(Debug, Clone, PartialEq, Eq)]
pub struct SessionPlan {
    /// The four stratagems, in preset order.
    pub stratagems: Vec<String>,
    /// The booster, if any.
    pub booster: Option<String>,
}

impl SessionPlan {
    /// Nothing to assemble.
    pub fn is_empty(&self) -> (r: bool)
        ensures
            r == (self.stratagems@.len() == 0 && self.booster is None),
    {
        self.stratagems.len() == 0 && self.booster.is_none()
    }

    /// Number of entries the plan expects to be confirmed.
    pub fn expected(&self) -> (r: usize)
        requires
            self.stratagems@.len() < usize::MAX,
        ensures
            r == self.stratagems@.len() + if self.booster is Some {
                1int
            } else {
                0int
            },
    {
        self.stratagems.len() + if self.booster.is_some() {
            1
        } else {
            0
        }
    }
}

/// The evidence of one session.
#[derive(Debug, Clone, Default, PartialEq)]
pub struct SessionReport {
    /// Ids confirmed, in confirmation order.
    pub selected: Vec<String>,
    /// Lists opened.
    pub opened_lists: u32,
    /// Wheel inputs, clicks and confirmed hovers over all targets.
    pub wheel_inputs: u32,
    pub clicks: u32,
    pub hovers_confirmed: u32,
    /// Phase labels across targets.
    pub phases: Vec<String>,
    /// Failure reasons (empty = all succeeded).
    pub failures: Vec<String>,
    /// Entries the plan expected.
    pub expected: usize,
}

/// Why a session stopped, with the evidence gathered so far.
#[derive(Debug)]
pub struct SessionError {
    pub detail: String,
    pub report: SessionReport,
}

impl SessionError {
    /// Whether the reason mentions `needle`.
    pub fn contains(&self, needle: &str) -> (r: bool)
        ensures
            r == contains_seq(self.detail@, needle@),
    {
        contains_str(self.detail.as_str(), needle)
    }
}

/// Labels of a list of phases.
pub open spec fn phase_labels(p: Seq<DirectSelectPhase>) -> Seq<Seq<char>> {
    p.map_values(|x: DirectSelectPhase| x.label_spec())
}

/// The one-line summary written to the sync log.
pub open spec fn summary_spec(r: SessionReport) -> Seq<char> {
    "direct_select: 已确认 "@ + decimal(r.selected@.len()) + " 项 ["@ + join(
        string_views(r.selected@),
        ", "@,
    ) + "]，打开列表 "@ + decimal(r.opened_lists as nat) + " 次，滚轮 "@ + decimal(
        r.wheel_inputs as nat,
    ) + " 次，点击 "@ + decimal(r.clicks as nat) + " 次，hover 确认 "@ + decimal(
        r.hovers_confirmed as nat,
    ) + " 次"@ + if r.failures@.len() > 0 {
        "；失败: "@ + join(string_views(r.failures@), " / "@)
    } else {
        Seq::<char>::empty()
    }
}

impl SessionReport {
    /// An empty report.
    pub fn new() -> (r: SessionReport)
        ensures
            r.selected@.len() == 0,
            r.opened_lists == 0,
            r.wheel_inputs == 0,
            r.clicks == 0,
            r.hovers_confirmed == 0,
            r.phases@.len() == 0,
            r.failures@.len() == 0,
            r.expected == 0,
    {
        SessionReport {
            selected: Vec::new(),
            opened_lists: 0,
            wheel_inputs: 0,
            clicks: 0,
            hovers_confirmed: 0,
            phases: Vec::new(),
            failures: Vec::new(),
            expected: 0,
        }
    }

    /// Success means no failure and every expected entry confirmed.
    pub fn is_success(&self) -> (r: bool)
        ensures
            r == (self.failures@.len() == 0 && self.selected@.len() == self.expected),
    {
        self.failures.len() == 0 && self.selected.len() == self.expected
    }

    /// Adds one run's trail: counters add up, phase labels are appended.
    pub fn absorb(&mut self, trace: &DirectSelectTrace)
        requires
            old(self).wheel_inputs + trace.wheel_inputs <= u32::MAX,
            old(self).clicks + trace.clicks <= u32::MAX,
            old(self).hovers_confirmed + trace.hovers_confirmed <= u32::MAX,
        ensures
            final(self).wheel_inputs == old(self).wheel_inputs + trace.wheel_inputs,
            final(self).clicks == old(self).clicks + trace.clicks,
            final(self).hovers_confirmed == old(self).hovers_confirmed + trace.hovers_confirmed,
            string_views(final(self).phases@) == string_views(old(self).phases@) + phase_labels(
                trace.phases@,
            ),
            final(self).selected@ == old(self).selected@,
            final(self).failures@ == old(self).failures@,
            final(self).opened_lists == old(self).opened_lists,
            final(self).expected == old(self).expected,
    {
        self.wheel_inputs = self.wheel_inputs + trace.wheel_inputs;
        self.clicks = self.clicks + trace.clicks;
        self.hovers_confirmed = self.hovers_confirmed + trace.hovers_confirmed;
        let ghost p0 = string_views(self.phases@);
        let mut i: usize = 0;
        while i < trace.phases.len()
            invariant
                i <= trace.phases@.len(),
                string_views(self.phases@) == p0 + phase_labels(trace.phases@).take(i as int),
                self.wheel_inputs == old(self).wheel_inputs + trace.wheel_inputs,
                self.clicks == old(self).clicks + trace.clicks,
                self.hovers_confirmed == old(self).hovers_confirmed + trace.hovers_confirmed,
                self.selected@ == old(self).selected@,
                self.failures@ == old(self).failures@,
                self.opened_lists == old(self).opened_lists,
                self.expected == old(self).expected,
            decreases trace.phases@.len() - i,
        {
            let label = trace.phases[i].label();
            let ghost before = self.phases@;
            self.phases.push(String::from_str(label));
            assert(string_views(self.phases@) =~= string_views(before).push(label@));
            assert(phase_labels(trace.phases@).take(i + 1) =~= phase_labels(trace.phases@).take(
                i as int,
            ).push(trace.phases@[i as int].label_spec()));
            assert(string_views(self.phases@) =~= p0 + phase_labels(trace.phases@).take(i + 1));
            i = i + 1;
        }
        assert(phase_labels(trace.phases@).take(trace.phases@.len() as int) =~= phase_labels(
            trace.phases@,
        ));
    }

    /// One readable summary line for the sync log.
    pub fn summary(&self) -> (r: String)
        ensures
            r@ == summary_spec(*self),
    {
        let mut s = String::new();
        push_str(&mut s, "direct_select: 已确认 ");
        push_decimal(&mut s, self.selected.len() as u64);
        push_str(&mut s, " 项 [");
        push_joined(&mut s, self.selected.as_slice(), ", ");
        push_str(&mut s, "]，打开列表 ");
        push_decimal(&mut s, self.opened_lists as u64);
        push_str(&mut s, " 次，滚轮 ");
        push_decimal(&mut s, self.wheel_inputs as u64);
        push_str(&mut s, " 次，点击 ");
        push_decimal(&mut s, self.clicks as u64);
        push_str(&mut s, " 次，hover 确认 ");
        push_decimal(&mut s, self.hovers_confirmed as u64);
        push_str(&mut s, " 次");
        if self.failures.len() > 0 {
            push_str(&mut s, "；失败: ");
            push_joined(&mut s, self.failures.as_slice(), " / ");
        }
        assert(s@ =~= summary_spec(*self));
        s
    }
}

/// Plain view of a report.
#[verifier::ext_equal]
pub struct ReportView {
    pub selected: Seq<Seq<char>>,
    pub opened_lists: u32,
    pub wheel_inputs: u32,
    pub clicks: u32,
    pub hovers_confirmed: u32,
    pub phases: Seq<Seq<char>>,
    pub failures: Seq<Seq<char>>,
    pub expected: usize,
}

/// The view of a report.
pub open spec fn report_view(r: SessionReport) -> ReportView {
    ReportView {
        selected: string_views(r.selected@),
        opened_lists: r.opened_lists,
        wheel_inputs: r.wheel_inputs,
        clicks: r.clicks,
        hovers_confirmed: r.hovers_confirmed,
        phases: string_views(r.phases@),
        failures: string_views(r.failures@),
        expected: r.expected,
    }
}

/// The view of an empty report.
pub open spec fn empty_report_view() -> ReportView {
    ReportView {
        selected: Seq::empty(),
        opened_lists: 0,
        wheel_inputs: 0,
        clicks: 0,
        hovers_confirmed: 0,
        phases: Seq::empty(),
        failures: Seq::empty(),
        expected: 0,
    }
}

/// Where a session stands: before the first event, opening the home slot of
/// target `i`, selecting target `i` in the open list, done, or stopped at
/// target `i`.
#[derive(Debug, Clone, Copy, PartialEq, Eq, Structural)]
pub enum SessionStage {
    NotStarted,
    Opening(usize),
    Selecting(usize),
    Done,
    Failed(usize),
}

/// What the I/O saw since the last action of a session.
#[derive(Debug)]
pub enum SessionEvent {
    /// The session is to start.
    Begin,
    /// The empty home slot was clicked: the list opened, or why not.
    SlotOpened(Result<(), String>),
    /// What the I/O saw for the selection machine running on the open list.
    Select(SelectEvent),
}

/// What the I/O is to do next in a session.
#[derive(Debug, PartialEq)]
pub enum SessionAction {
    /// Click the first empty home slot of this kind and report whether the
    /// list opened.
    OpenSlot(ItemKind),
    /// Do what the selection machine asks, and report what was seen.
    Select(SelectAction),
    /// The session is over: `Ok` when every target was confirmed, else the
    /// reason; the report holds the evidence either way.
    Finish(Result<(), String>),
    /// The session was already over; nothing is done.
    Stopped,
}

/// The view of a session action.
pub enum SessionActionView {
    OpenSlot(ItemKind),
    Select(ActionView),
    Finish(Result<(), Seq<char>>),
    Stopped,
}

impl View for SessionAction {
    type V = SessionActionView;

    open spec fn view(&self) -> SessionActionView {
        match self {
            SessionAction::OpenSlot(k) => SessionActionView::OpenSlot(*k),
            SessionAction::Select(a) => SessionActionView::Select(a@),
            SessionAction::Finish(r) => SessionActionView::Finish(
                match r {
                    Ok(()) => Ok(()),
                    Err(d) => Err(d@),
                },
            ),
            SessionAction::Stopped => SessionActionView::Stopped,
        }
    }
}

/// A session: its targets (the stratagems in preset order, then the booster)
/// with their kinds, where it stands, its report, and the selection machine
/// of the target in hand.
pub struct SessionState {
    targets: Vec<String>,
    kinds: Vec<ItemKind>,
    stage: SessionStage,
    report: SessionReport,
    machine: Option<DirectSelectMachine>,
}

/// Plain view of a session.
#[verifier::ext_equal]
pub struct SessionView {
    pub targets: Seq<Seq<char>>,
    pub kinds: Seq<ItemKind>,
    pub stage: SessionStage,
    pub report: ReportView,
    pub machine: Option<MachineView>,
}

impl View for SessionState {
    type V = SessionView;

    closed spec fn view(&self) -> SessionView {
        SessionView {
            targets: string_views(self.targets@),
            kinds: self.kinds@,
            stage: self.stage,
            report: report_view(self.report),
            machine: match self.machine {
                Some(m) => Some(m@),
                None => None,
            },
        }
    }
}

/// A session is consistent: one kind per target; the ids confirmed are
/// exactly the targets before the current one (all of them once done); the
/// machine in hand, while selecting, was made for the current target alone.
pub open spec fn session_wf(v: SessionView) -> bool {
    &&& v.targets.len() == v.kinds.len()
    &&& match v.stage {
        SessionStage::NotStarted => v.report.selected.len() == 0 && v.report.failures.len() == 0
            && v.report.expected == 0,
        SessionStage::Opening(i) => {
            &&& i < v.targets.len()
            &&& v.report.selected == v.targets.take(i as int)
            &&& v.report.failures.len() == 0
            &&& v.report.expected == v.targets.len()
        },
        SessionStage::Selecting(i) => {
            &&& i < v.targets.len()
            &&& v.report.selected == v.targets.take(i as int)
            &&& v.report.failures.len() == 0
            &&& v.report.expected == v.targets.len()
            &&& v.machine matches Some(m) && m.initial == seq![v.targets[i as int]] && m.kind
                == v.kinds[i as int]
        },
        SessionStage::Done => {
            &&& v.report.selected == v.targets
            &&& v.report.failures.len() == 0
            &&& v.report.expected == v.targets.len()
        },
        SessionStage::Failed(k) => k <= v.targets.len() && v.report.selected == v.targets.take(
            k as int,
        ),
    }
}

/// The reason a failed selection gives.
pub open spec fn failure_reason(item_id: Seq<char>, f: FailureView) -> Seq<char> {
    item_id + ": "@ + failure_label(f) + " — "@ + failure_message(f)
}

/// The reason given when the machine reported success without the target.
pub open spec fn missing_reason(item_id: Seq<char>) -> Seq<char> {
    "状态机报告成功但没有确认 "@ + item_id
}

/// The report after absorbing the trail of a finished machine.
pub open spec fn absorb_spec(r: ReportView, m: MachineView) -> ReportView {
    ReportView {
        wheel_inputs: (r.wheel_inputs + m.wheel_inputs) as u32,
        clicks: (r.clicks + m.clicks) as u32,
        hovers_confirmed: (r.hovers_confirmed + m.hovers_confirmed) as u32,
        phases: r.phases + phase_labels(m.phases),
        ..r
    }
}

/// Stop at target `k` with `reason`, recorded once more among the failures.
pub open spec fn session_fail(v: SessionView, reason: Seq<char>, k: int) -> (
    SessionView,
    SessionActionView,
) {
    (
        SessionView {
            stage: SessionStage::Failed(k as usize),
            report: ReportView { failures: v.report.failures.push(reason), ..v.report },
            machine: None,
            ..v
        },
        SessionActionView::Finish(Err(reason)),
    )
}

/// Target `i` was confirmed: open the next slot, or finish.
pub open spec fn session_next(v: SessionView, i: int) -> (SessionView, SessionActionView) {
    if i + 1 < v.targets.len() {
        (
            SessionView { stage: SessionStage::Opening((i + 1) as usize), machine: None, ..v },
            SessionActionView::OpenSlot(v.kinds[i + 1]),
        )
    } else {
        (
            SessionView { stage: SessionStage::Done, machine: None, ..v },
            SessionActionView::Finish(Ok(())),
        )
    }
}

/// The machine on target `i` ended with `o`, its record being `m`.
pub open spec fn selection_ended(v: SessionView, i: int, m: MachineView, o: OutcomeView) -> (
    SessionView,
    SessionActionView,
) {
    let r = absorb_spec(v.report, m);
    let id = v.targets[i];
    match o {
        OutcomeView::Succeeded(sel) => {
            let r2 = ReportView { selected: r.selected + sel, ..r };
            let w = SessionView { report: r2, ..v };
            if sel.contains(id) {
                session_next(w, i)
            } else {
                session_fail(
                    SessionView {
                        report: ReportView { failures: r2.failures.push(missing_reason(id)), ..r2 },
                        ..w
                    },
                    missing_reason(id),
                    i,
                )
            }
        },
        OutcomeView::Failed(f, _) => session_fail(
            SessionView { report: r, ..v },
            failure_reason(id, f),
            i,
        ),
    }
}

/// One step of a session.
pub open spec fn session_step_spec(v: SessionView, ev: SessionEvent) -> (
    SessionView,
    SessionActionView,
) {
    match (v.stage, ev) {
        (SessionStage::NotStarted, SessionEvent::Begin) => if v.targets.len() == 0 {
            (SessionView { stage: SessionStage::Done, ..v }, SessionActionView::Finish(Ok(())))
        } else {
            (
                SessionView {
                    stage: SessionStage::Opening(0),
                    report: ReportView { expected: v.targets.len() as usize, ..v.report },
                    ..v
                },
                SessionActionView::OpenSlot(v.kinds[0]),
            )
        },
        (SessionStage::Opening(i), SessionEvent::SlotOpened(res)) => match res {
            Ok(()) => (
                SessionView {
                    stage: SessionStage::Selecting(i),
                    report: ReportView {
                        opened_lists: (v.report.opened_lists + 1) as u32,
                        ..v.report
                    },
                    machine: Some(fresh_machine(seq![v.targets[i as int]], v.kinds[i as int])),
                    ..v
                },
                SessionActionView::Select(ActionView::Observe),
            ),
            Err(d) => session_fail(v, d@, i as int),
        },
        (SessionStage::Selecting(i), SessionEvent::Select(e)) => {
            let (m2, a) = select_step_spec(v.machine->0, e@);
            match a {
                ActionView::Finish(o) => selection_ended(v, i as int, m2, o),
                _ => (SessionView { machine: Some(m2), ..v }, SessionActionView::Select(a)),
            }
        },
        (SessionStage::Done, _) => (v, SessionActionView::Stopped),
        (SessionStage::Failed(_), _) => (v, SessionActionView::Stopped),
        (SessionStage::Opening(i), _) => session_fail(v, "unexpected event"@, i as int),
        (SessionStage::Selecting(i), _) => session_fail(v, "unexpected event"@, i as int),
        _ => session_fail(v, "unexpected event"@, 0),
    }
}

/// The counters a step may add still fit: one list, and what one machine
/// on one target can count (its wheel cap, three clicks).
pub open spec fn session_step_fits(v: SessionView) -> bool {
    &&& v.report.opened_lists < u32::MAX
    &&& v.report.wheel_inputs + MAX_WHEEL_INPUTS <= u32::MAX
    &&& v.report.clicks + MAX_TARGET_CLICK_ATTEMPTS <= u32::MAX
    &&& v.report.hovers_confirmed + MAX_TARGET_CLICK_ATTEMPTS <= u32::MAX
}

impl SessionState {
    /// The consistency of the session (see `session_wf`).
    pub closed spec fn wf(&self) -> bool {
        &&& self.targets@.len() == self.kinds@.len()
        &&& session_wf(self@)
        &&& match self.machine {
            Some(m) => m.wf(),
            None => true,
        }
    }

    /// A session for `plan`, not started: its stratagems in order, then its
    /// booster.
    pub fn new(plan: &SessionPlan) -> (r: SessionState)
        ensures
            r.wf(),
            r@.stage == SessionStage::NotStarted,
            r@.targets == string_views(plan.stratagems@) + match plan.booster {
                Some(b) => seq![b@],
                None => Seq::<Seq<char>>::empty(),
            },
            r@.kinds == Seq::new(plan.stratagems@.len(), |i: int| ItemKind::Stratagem) + match plan.booster {
                Some(b) => seq![ItemKind::Booster],
                None => Seq::<ItemKind>::empty(),
            },
            r@.report == empty_report_view(),
            r@.machine is None,
    {
        let mut targets: Vec<String> = Vec::new();
        let mut kinds: Vec<ItemKind> = Vec::new();
        let mut i: usize = 0;
        while i < plan.stratagems.len()
            invariant
                i <= plan.stratagems@.len(),
                string_views(targets@) == string_views(plan.stratagems@).take(i as int),
                kinds@ == Seq::new(i as nat, |k: int| ItemKind::Stratagem),
            decreases plan.stratagems@.len() - i,
        {
            let ghost tb = targets@;
            let id = string_of(plan.stratagems[i].as_str());
            targets.push(id);
            kinds.push(ItemKind::Stratagem);
            assert(string_views(targets@) =~= string_views(tb).push(plan.stratagems@[i as int]@));
            assert(string_views(plan.stratagems@).take(i + 1) =~= string_views(
                plan.stratagems@,
            ).take(i as int).push(plan.stratagems@[i as int]@));
            assert(kinds@ =~= Seq::new((i + 1) as nat, |k: int| ItemKind::Stratagem));
            i = i + 1;
        }
        assert(string_views(plan.stratagems@).take(plan.stratagems@.len() as int) =~= string_views(
            plan.stratagems@,
        ));
        let ghost tb = targets@;
        let ghost kb = kinds@;
        match &plan.booster {
            Some(b) => {
                targets.push(string_of(b.as_str()));
                kinds.push(ItemKind::Booster);
                assert(string_views(targets@) =~= string_views(tb) + seq![b@]);
                assert(kinds@ =~= kb + seq![ItemKind::Booster]);
            },
            None => {
                assert(string_views(targets@) =~= string_views(tb) + Seq::<Seq<char>>::empty());
                assert(kinds@ =~= kb + Seq::<ItemKind>::empty());
            },
        }
        let report = SessionReport::new();
        assert(string_views(report.selected@) =~= Seq::<Seq<char>>::empty());
        assert(string_views(report.phases@) =~= Seq::<Seq<char>>::empty());
        assert(string_views(report.failures@) =~= Seq::<Seq<char>>::empty());
        assert(report_view(report) =~= empty_report_view());
        SessionState { targets, kinds, stage: SessionStage::NotStarted, report, machine: None }
    }

    /// Where the session stands.
    pub fn stage(&self) -> (r: SessionStage)
        ensures
            r == self@.stage,
    {
        self.stage
    }

    /// The evidence so far.
    pub fn report(&self) -> (r: &SessionReport)
        ensures
            report_view(*r) == self@.report,
    {
        &self.report
    }

    /// The selection machine in hand, while selecting.
    pub fn machine(&self) -> (r: Option<&DirectSelectMachine>)
        ensures
            match r {
                Some(m) => self@.machine == Some(m@),
                None => self@.machine is None,
            },
    {
        match &self.machine {
            Some(m) => Some(m),
            None => None,
        }
    }

    /// Appends `ids` to the confirmed ids.
    fn push_selected(&mut self, ids: &[String])
        ensures
            final(self)@ == (SessionView {
                report: ReportView {
                    selected: old(self)@.report.selected + string_views(ids@),
                    ..old(self)@.report
                },
                ..old(self)@
            }),
            final(self).targets@ == old(self).targets@,
            final(self).kinds@ == old(self).kinds@,
            final(self).machine == old(self).machine,
    {
        let ghost v = self@;
        let mut k: usize = 0;
        while k < ids.len()
            invariant
                k <= ids@.len(),
                self@ == (SessionView {
                    report: ReportView {
                        selected: v.report.selected + string_views(ids@).take(k as int),
                        ..v.report
                    },
                    ..v
                }),
                self.targets@ == old(self).targets@,
                self.kinds@ == old(self).kinds@,
                self.machine == old(self).machine,
            decreases ids@.len() - k,
        {
            let ghost sb = self.report.selected@;
            self.report.selected.push(string_of(ids[k].as_str()));
            assert(string_views(self.report.selected@) =~= string_views(sb).push(ids@[k as int]@));
            assert(string_views(ids@).take(k + 1) =~= string_views(ids@).take(k as int).push(
                ids@[k as int]@,
            ));
            assert(self@ =~= (SessionView {
                report: ReportView {
                    selected: v.report.selected + string_views(ids@).take(k + 1),
                    ..v.report
                },
                ..v
            }));
            k = k + 1;
        }
        assert(string_views(ids@).take(ids@.len() as int) =~= string_views(ids@));
    }

    /// Records `reason` as a failure and stops at target `k`.
    fn fail(&mut self, reason: String, k: usize) -> (a: SessionAction)
        requires
            old(self).targets@.len() == old(self).kinds@.len(),
            k <= old(self).targets@.len(),
            old(self)@.report.selected == old(self)@.targets.take(k as int),
        ensures
            final(self).wf(),
            (final(self)@, a@) == session_fail(old(self)@, reason@, k as int),
    {
        let ghost v = self@;
        self.report.failures.push(string_of(reason.as_str()));
        self.stage = SessionStage::Failed(k);
        self.machine = None;
        assert(string_views(self.report.failures@) =~= v.report.failures.push(reason@));
        assert(self@ =~= session_fail(v, reason@, k as int).0);
        SessionAction::Finish(Err(reason))
    }
}

/// The confirmed ids of a machine made for `id` alone that left no target.
proof fn lemma_single_target_done(m: MachineView, id: Seq<char>)
    requires
        selection_law(m),
        m.initial == seq![id],
        m.remaining.len() == 0,
    ensures
        m.selected == seq![id],
{
    lemma_done_selects_exactly_the_targets(m);
    assert(m.initial[0] == id);
    assert(m.initial.contains(id));
    assert(m.selected.contains(id));
    if m.selected.len() > 1 {
        assert(m.selected.contains(m.selected[0]));
        assert(m.selected.contains(m.selected[1]));
        assert(m.initial.contains(m.selected[0]));
        assert(m.initial.contains(m.selected[1]));
        assert(m.selected[0] == id);
        assert(m.selected[1] == id);
    }
    assert(m.selected.contains(m.selected[0]));
    assert(m.initial.contains(m.selected[0]));
    assert(m.selected =~= seq![id]);
}

/// One step of a session: decides, from what the I/O saw, the session's next
/// state and what the I/O is to do.
///
/// Targets are done in plan order: each runs its own selection machine, made
/// for that target alone, and the next home slot is opened only once that
/// machine confirmed it and saw home settled. A finished session's report
/// lists exactly the targets, in plan order; a failure stops the session for
/// good at the failing target, with its reason recorded and what was
/// confirmed before it kept (nothing is rolled back).
pub fn session_step(s: SessionState, ev: SessionEvent) -> (r: (SessionState, SessionAction))
    requires
        s.wf(),
        session_step_fits(s@),
    ensures
        r.0.wf(),
        (r.0@, r.1@) == session_step_spec(s@, ev),
        r.1@ == SessionActionView::Finish(Ok(())) ==> r.0@.report.selected == r.0@.targets
            && r.0@.report.failures.len() == 0 && r.0@.report.selected.len()
            == r.0@.report.expected,
        r.1@ matches SessionActionView::Finish(Err(_)) ==> r.0@.stage matches SessionStage::Failed(k)
            && k <= r.0@.targets.len() && r.0@.report.selected == r.0@.targets.take(k as int)
            && r.0@.report.failures.len() > 0 && (s@.stage is Opening || s@.stage is Selecting
            ==> k < r.0@.targets.len()),
        r.1@ is OpenSlot ==> (s@.stage matches SessionStage::Selecting(i) ==> r.0@.stage
            == SessionStage::Opening((i + 1) as usize) && r.0@.report.selected == r.0@.targets.take(
            i + 1,
        )),
        s@.stage is Failed ==> r.0@ == s@ && r.1 == SessionAction::Stopped,
{
    let mut s = s;
    let ghost v = s@;
    let stage = s.stage;
    match (stage, ev) {
        (SessionStage::NotStarted, SessionEvent::Begin) => {
            if s.targets.len() == 0 {
                s.stage = SessionStage::Done;
                assert(v.targets =~= Seq::<Seq<char>>::empty());
                assert(v.report.selected =~= Seq::<Seq<char>>::empty());
                assert(s@ =~= session_step_spec(v, SessionEvent::Begin).0);
                (s, SessionAction::Finish(Ok(())))
            } else {
                s.report.expected = s.targets.len();
                s.stage = SessionStage::Opening(0);
                let k = s.kinds[0];
                assert(v.targets.take(0) =~= Seq::<Seq<char>>::empty());
                assert(v.report.selected =~= Seq::<Seq<char>>::empty());
                assert(s@ =~= session_step_spec(v, SessionEvent::Begin).0);
                (s, SessionAction::OpenSlot(k))
            }
        },
        (SessionStage::Opening(i), SessionEvent::SlotOpened(res)) => {
            match res {
                Ok(()) => {
                    s.report.opened_lists = s.report.opened_lists + 1;
                    s.stage = SessionStage::Selecting(i);
                    let item_id = string_of(s.targets[i].as_str());
                    let kind = s.kinds[i];
                    let ghost idv = item_id@;
                    let ids = vec![item_id];
                    assert(string_views(ids@) =~= seq![idv]);
                    let m = DirectSelectMachine::new(ids, kind);
                    s.machine = Some(m);
                    assert(s@ =~= session_step_spec(v, SessionEvent::SlotOpened(Ok(()))).0);
                    assert(s.wf());
                    (s, SessionAction::Select(SelectAction::Observe))
                },
                Err(d) => {
                    let a = s.fail(d, i);
                    (s, a)
                },
            }
        },
        (SessionStage::Selecting(i), SessionEvent::Select(e)) => {
            let mut m = match s.machine.take() {
                Some(m) => m,
                None => {
                    assert(false);
                    return (s, SessionAction::Stopped);
                },
            };
            proof {
                m.lemma_click_cap();
                m.lemma_wf_law();
            }
            let a = m.step(e);
            proof {
                m.lemma_click_cap();
                m.lemma_wf_law();
            }
            match a {
                SelectAction::Finish(outcome) => {
                    let ghost mv = m@;
                    s.report.absorb(m.trace());
                    let id = string_of(s.targets[i].as_str());
                    match outcome {
                        DirectSelectOutcome::Succeeded { selected } => {
                            proof {
                                lemma_single_target_done(mv, v.targets[i as int]);
                                assert(string_views(selected@) == mv.selected);
                                assert(string_views(selected@)[0] == v.targets[i as int]);
                                assert(string_views(selected@).contains(v.targets[i as int]));
                            }
                            s.push_selected(selected.as_slice());
                            if strings_contain(selected.as_slice(), id.as_str()) {
                                let ghost w = s@;
                                assert(w.report.selected =~= v.targets.take(i + 1));
                                if i < s.targets.len() - 1 {
                                    s.stage = SessionStage::Opening(i + 1);
                                    let k2 = s.kinds[i + 1];
                                    assert(s@ =~= session_next(w, i as int).0);
                                    assert(s.wf());
                                    (s, SessionAction::OpenSlot(k2))
                                } else {
                                    s.stage = SessionStage::Done;
                                    assert(v.targets.take(i + 1) =~= v.targets);
                                    assert(s@ =~= session_next(w, i as int).0);
                                    assert(s.wf());
                                    (s, SessionAction::Finish(Ok(())))
                                }
                            } else {
                                // A machine made for this target alone confirms it on success.
                                assert(false);
                                let mut reason = String::new();
                                push_str(&mut reason, "状态机报告成功但没有确认 ");
                                push_str(&mut reason, id.as_str());
                                s.report.failures.push(string_of(reason.as_str()));
                                let a = s.fail(reason, i);
                                (s, a)
                            }
                        },
                        DirectSelectOutcome::Failed { failure, .. } => {
                            proof {
                                lemma_failure_texts(failure);
                            }
                            let mut reason = String::new();
                            push_str(&mut reason, id.as_str());
                            push_str(&mut reason, ": ");
                            push_str(&mut reason, failure.label());
                            push_str(&mut reason, " — ");
                            let msg = failure.message();
                            push_str(&mut reason, msg.as_str());
                            let a = s.fail(reason, i);
                            (s, a)
                        },
                    }
                },
                other => {
                    let ghost mv = m@;
                    s.machine = Some(m);
                    assert(s@ =~= (SessionView { machine: Some(mv), ..v }));
                    assert(s.wf());
                    (s, SessionAction::Select(other))
                },
            }
        },
        (SessionStage::Done, _) => (s, SessionAction::Stopped),
        (SessionStage::Failed(_), _) => (s, SessionAction::Stopped),
        (SessionStage::Opening(i), _) => {
            let a = s.fail(string_of("unexpected event"), i);
            (s, a)
        },
        (SessionStage::Selecting(i), _) => {
            s.machine = None;
            let a = s.fail(string_of("unexpected event"), i);
            (s, a)
        },
        _ => {
            assert(v.targets.take(0) =~= Seq::<Seq<char>>::empty());
            assert(v.report.selected =~= v.targets.take(0));
            let a = s.fail(string_of("unexpected event"), 0);
            (s, a)
        },
    }
}

} // verus!
