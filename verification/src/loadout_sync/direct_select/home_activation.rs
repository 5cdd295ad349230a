//! Home activation: pick the empty home slot to open, and judge the wait for
//! the list that opens.
//!
//! The click point always comes from the current frame's geometry, never from
//! a calibration prior. Clicking and waiting are done by the application loop,
//! which asks `activation_poll` what to do after each observation.
use vstd::prelude::*;
use crate::loadout_sync::direct_select::click_plan::{SlotRef, SlotRefView};
use crate::loadout_sync::reference_vision::{ItemKind, SlotKind, UiState};
use crate::text::{decimal, join, push_decimal, push_str};

verus! {

/// How long to wait for the list to open.
pub const LIST_OPEN_TIMEOUT_MS: u64 = 1500;
/// How long a click is held.
pub const CLICK_HOLD_MS: u64 = 40;
/// Home column of the booster slot (stratagems 0..=3, booster 4).
pub const BOOSTER_COL: u32 = 4;
/// Poll interval.
pub const POLL_MS: u64 = 16;

/// The list to open: item kind and the click point measured in the current
/// frame.
#[derive(Debug, Clone, Copy, PartialEq, Eq)]
pub struct HomeOpenTarget {
    pub item_kind: ItemKind,
    /// Click point (screen coordinates, converted by the caller).
    pub point: (i32, i32),
}

/// A home slot is a candidate for `kind`.
pub open spec fn home_candidate(s: SlotRefView, k: SlotKind, kind: ItemKind) -> bool {
    s.selectable && k.selectable_for(kind)
}

/// `(row, col)` of `a` comes strictly before that of `b`.
pub open spec fn row_col_lt(a: SlotRefView, b: SlotRefView) -> bool {
    a.row < b.row || (a.row == b.row && a.col < b.col)
}

/// Index of the first empty candidate in `(row, col)` order among the first
/// `n` slots (ties: the earlier slot).
pub open spec fn first_empty_home(slots: Seq<(SlotRefView, SlotKind)>, kind: ItemKind, n: int) -> Option<int>
    decreases n,
{
    if n <= 0 {
        None
    } else {
        let prev = first_empty_home(slots, kind, n - 1);
        let (s, k) = slots[n - 1];
        if home_candidate(s, k, kind) && !s.occupied && (prev is None || row_col_lt(
            s,
            slots[prev->0].0,
        )) {
            Some(n - 1)
        } else {
            prev
        }
    }
}

/// Views of `(slot, kind)` pairs.
pub open spec fn kinded_views(slots: Seq<(SlotRef, SlotKind)>) -> Seq<(SlotRefView, SlotKind)> {
    slots.map_values(|p: (SlotRef, SlotKind)| (p.0@, p.1))
}

/// The first fillable home slot of `kind`, in `(row, col)` order.
///
/// The kind comes from the caller's `SlotKind` (no column convention);
/// occupied slots, recognised or not, are never chosen. `None` means stop:
/// there is no fallback to calibrated positions.
pub fn find_home_slot_kinded(slots: &[(SlotRef, SlotKind)], kind: ItemKind) -> (r: Option<&SlotRef>)
    ensures
        match first_empty_home(kinded_views(slots@), kind, slots@.len() as int) {
            Some(i) => r is Some && r->0@ == kinded_views(slots@)[i].0,
            None => r is None,
        },
{
    let ghost v = kinded_views(slots@);
    let mut best: Option<usize> = None;
    let mut i: usize = 0;
    while i < slots.len()
        invariant
            i <= slots@.len(),
            v == kinded_views(slots@),
            best matches Some(b) ==> first_empty_home(v, kind, i as int) == Some(b as int) && b
                < i,
            best is None ==> first_empty_home(v, kind, i as int) is None,
        decreases slots@.len() - i,
    {
        let (ref s, k) = slots[i];
        proof {
            assert(v[i as int] == (s@, k));
        }
        if s.selectable && k.is_selectable_item_for(kind) && !s.occupied {
            let take = match best {
                None => true,
                Some(b) => {
                    let (ref p, _) = slots[b];
                    proof {
                        assert(v[b as int].0 == p@);
                    }
                    s.row < p.row || (s.row == p.row && s.col < p.col)
                },
            };
            if take {
                best = Some(i);
            }
        }
        i = i + 1;
    }
    match best {
        Some(b) => {
            proof {
                assert(v[b as int].0 == slots@[b as int].0@);
            }
            Some(&slots[b].0)
        },
        None => None,
    }
}

/// Result of a click-and-wait.
#[derive(Debug, Clone, PartialEq)]
pub enum ActivationOutcome {
    /// The list opened.
    ListOpened,
    /// The list did not appear in time.
    Timeout { elapsed_ms: u64 },
    /// Cannot be judged (geometry unavailable, cancelled).
    NotEvaluable { detail: String },
}

impl ActivationOutcome {
    /// Stable label of the outcome.
    pub fn label(&self) -> (r: &'static str)
        ensures
            r@ == match self {
                ActivationOutcome::ListOpened => "list_opened"@,
                ActivationOutcome::Timeout { .. } => "timeout"@,
                ActivationOutcome::NotEvaluable { .. } => "not_evaluable"@,
            },
    {
        match self {
            ActivationOutcome::ListOpened => "list_opened",
            ActivationOutcome::Timeout { .. } => "timeout",
            ActivationOutcome::NotEvaluable { .. } => "not_evaluable",
        }
    }
}

/// What one poll of the wait for the list saw.
pub enum ListPoll {
    /// The list is open.
    Open,
    /// The list is not open yet.
    NotYet,
    /// Observation failed with this detail.
    Failed(String),
}

/// What the waiting loop must do after one poll.
pub enum ActivationStep {
    /// Stop with this outcome.
    Done(ActivationOutcome),
    /// Sleep one poll interval and poll again.
    Wait,
}

/// One step of the wait for the list after the click: cancellation, then the
/// poll, then the timeout (`now_ms - start_ms`, saturating) decide.
pub fn activation_poll(cancelled: bool, poll: ListPoll, start_ms: u64, now_ms: u64) -> (r:
    ActivationStep)
    ensures
        cancelled ==> (r matches ActivationStep::Done(ActivationOutcome::NotEvaluable { detail })
            && detail@ == "已取消"@),
        !cancelled && poll is Open ==> (r matches ActivationStep::Done(
            ActivationOutcome::ListOpened,
        )),
        !cancelled && poll is Failed ==> (r matches ActivationStep::Done(
            ActivationOutcome::NotEvaluable { detail },
        ) && detail@ == poll->Failed_0@),
        !cancelled && poll is NotYet ==> {
            let elapsed = if now_ms >= start_ms {
                now_ms - start_ms
            } else {
                0
            };
            if elapsed >= LIST_OPEN_TIMEOUT_MS {
                (r matches ActivationStep::Done(ActivationOutcome::Timeout { elapsed_ms })
                    && elapsed_ms == elapsed)
            } else {
                r is Wait
            }
        },
{
    if cancelled {
        return ActivationStep::Done(
            ActivationOutcome::NotEvaluable { detail: String::from_str("已取消") },
        );
    }
    match poll {
        ListPoll::Open => ActivationStep::Done(ActivationOutcome::ListOpened),
        ListPoll::Failed(detail) => ActivationStep::Done(ActivationOutcome::NotEvaluable { detail }),
        ListPoll::NotYet => {
            let elapsed = now_ms.saturating_sub(start_ms);
            if elapsed >= LIST_OPEN_TIMEOUT_MS {
                ActivationStep::Done(ActivationOutcome::Timeout { elapsed_ms: elapsed })
            } else {
                ActivationStep::Wait
            }
        },
    }
}

/// A list slot (which never stands on the home screen).
pub open spec fn is_list_kind(k: SlotKind) -> bool {
    k is ListStratagem || k is ListBooster
}

/// Index of the first fillable home slot of `kind` among the first `n`, list
/// slots left out, in `(row, col)` order (ties: the earlier slot).
pub open spec fn first_empty_home_only(slots: Seq<(SlotRefView, SlotKind)>, kind: ItemKind, n: int) -> Option<
    int,
>
    decreases n,
{
    if n <= 0 {
        None
    } else {
        let prev = first_empty_home_only(slots, kind, n - 1);
        let (s, k) = slots[n - 1];
        if !is_list_kind(k) && home_candidate(s, k, kind) && !s.occupied && (prev is None
            || row_col_lt(s, slots[prev->0].0)) {
            Some(n - 1)
        } else {
            prev
        }
    }
}

/// The slot to click to open the list of `kind`: the first fillable home
/// slot, list slots left out (seeing one on the home screen is a
/// recognition problem, never a slot to click).
pub fn find_home_slot_only(slots: &[(SlotRef, SlotKind)], kind: ItemKind) -> (r: Option<usize>)
    ensures
        r == match first_empty_home_only(kinded_views(slots@), kind, slots@.len() as int) {
            Some(i) => Some(i as usize),
            None => None::<usize>,
        },
{
    let ghost v = kinded_views(slots@);
    let mut best: Option<usize> = None;
    let mut i: usize = 0;
    while i < slots.len()
        invariant
            i <= slots@.len(),
            v == kinded_views(slots@),
            best matches Some(b) ==> first_empty_home_only(v, kind, i as int) == Some(b as int)
                && b < i,
            best is None ==> first_empty_home_only(v, kind, i as int) is None,
        decreases slots@.len() - i,
    {
        let (ref s, k) = slots[i];
        proof {
            assert(v[i as int] == (s@, k));
        }
        if !k.is_list() && s.selectable && k.is_selectable_item_for(kind) && !s.occupied {
            let take = match best {
                None => true,
                Some(b) => {
                    let (ref p, _) = slots[b];
                    proof {
                        assert(v[b as int].0 == p@);
                    }
                    s.row < p.row || (s.row == p.row && s.col < p.col)
                },
            };
            if take {
                best = Some(i);
            }
        }
        i = i + 1;
    }
    best
}

/// How one seen slot is described when no home slot can be opened.
pub open spec fn seen_slot_text(s: SlotRefView, k: SlotKind) -> Seq<char> {
    k.label_spec() + "("@ + decimal(s.row as nat) + ","@ + decimal(s.col as nat) + " occupied="@
        + if s.occupied {
        "true"@
    } else {
        "false"@
    } + ")"@
}

/// The reason given when no home slot of `kind` can be opened: the kind, the
/// screen state (`unknown` when it could not be told) and every slot seen.
pub open spec fn no_empty_slot_reason_spec(
    kind: ItemKind,
    ui: Option<UiState>,
    slots: Seq<(SlotRefView, SlotKind)>,
) -> Seq<char> {
    "Home 上没有可用的空槽（"@ + (if kind is Stratagem {
        "Stratagem"@
    } else {
        "Booster"@
    }) + "）；界面状态="@ + match ui {
        Some(u) => u.label_spec(),
        None => "unknown"@,
    } + "，槽位: ["@ + join(
        Seq::new(slots.len(), |i: int| seen_slot_text(slots[i].0, slots[i].1)),
        ", "@,
    ) + "]"@
}

/// Appends the description of one seen slot.
fn push_seen_slot(r: &mut String, s: &SlotRef, k: SlotKind)
    ensures
        final(r)@ == old(r)@ + seen_slot_text(s@, k),
{
    let ghost r0 = r@;
    push_str(r, k.label());
    push_str(r, "(");
    push_decimal(r, s.row as u64);
    push_str(r, ",");
    push_decimal(r, s.col as u64);
    push_str(r, " occupied=");
    if s.occupied {
        push_str(r, "true");
    } else {
        push_str(r, "false");
    }
    push_str(r, ")");
    assert(r@ =~= r0 + seen_slot_text(s@, k));
}

/// The reason given when no home slot of `kind` can be opened.
#[verifier::rlimit(30)]
pub fn no_empty_slot_reason(kind: ItemKind, ui: Option<UiState>, slots: &[(SlotRef, SlotKind)]) -> (r:
    String)
    ensures
        r@ == no_empty_slot_reason_spec(kind, ui, kinded_views(slots@)),
{
    let ghost v = kinded_views(slots@);
    let ghost texts = Seq::new(v.len(), |i: int| seen_slot_text(v[i].0, v[i].1));
    let mut r = String::new();
    push_str(&mut r, "Home 上没有可用的空槽（");
    match kind {
        ItemKind::Stratagem => push_str(&mut r, "Stratagem"),
        ItemKind::Booster => push_str(&mut r, "Booster"),
    }
    push_str(&mut r, "）；界面状态=");
    match ui {
        Some(u) => push_str(&mut r, u.label()),
        None => push_str(&mut r, "unknown"),
    }
    push_str(&mut r, "，槽位: [");
    let ghost r0 = r@;
    let mut i: usize = 0;
    while i < slots.len()
        invariant
            i <= slots@.len(),
            v == kinded_views(slots@),
            texts == Seq::new(v.len(), |i: int| seen_slot_text(v[i].0, v[i].1)),
            r@ == r0 + join(texts.take(i as int), ", "@),
        decreases slots@.len() - i,
    {
        let (ref s, k) = slots[i];
        proof {
            assert(v[i as int] == (s@, k));
            assert(texts.take(i + 1).drop_last() =~= texts.take(i as int));
            assert(texts.take(i + 1).last() == seen_slot_text(s@, k));
        }
        let ghost before = r@;
        if i > 0 {
            push_str(&mut r, ", ");
        }
        let ghost mid = r@;
        push_seen_slot(&mut r, s, k);
        proof {
            if i == 0 {
                assert(texts.take(1) =~= seq![texts[0]]);
                assert(join(texts.take(1), ", "@) == texts[0]);
                assert(before == r0 + Seq::<char>::empty());
            } else {
                assert(join(texts.take(i + 1), ", "@) == join(texts.take(i as int), ", "@) + ", "@
                    + texts[i as int]);
            }
        }
        assert(r@ =~= r0 + join(texts.take(i + 1), ", "@));
        i = i + 1;
    }
    assert(texts.take(slots@.len() as int) =~= texts);
    push_str(&mut r, "]");
    r
}

/// What the wait for the list makes of the slot's opening: only an opened
/// list lets the selection start; anything else refuses with its label.
pub fn list_opened(outcome: &ActivationOutcome) -> (r: Result<(), String>)
    ensures
        match outcome {
            ActivationOutcome::ListOpened => r is Ok,
            _ => r matches Err(d) && d@ == "打开列表失败: "@ + match outcome {
                ActivationOutcome::Timeout { .. } => "timeout"@,
                _ => "not_evaluable"@,
            },
        },
{
    match outcome {
        ActivationOutcome::ListOpened => Ok(()),
        _ => {
            let mut d = String::new();
            push_str(&mut d, "打开列表失败: ");
            push_str(&mut d, outcome.label());
            Err(d)
        },
    }
}

} // verus!
