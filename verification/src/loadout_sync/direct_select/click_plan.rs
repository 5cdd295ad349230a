//! Target planning: which recognised slot to click next.
//!
//! The same target hit in several slots is resolved by gate quality, then
//! margin, then score; among several visible targets the topmost (then
//! leftmost) comes first, so what is on screen is assembled before scrolling.
use vstd::prelude::*;
use crate::loadout_sync::reference_vision::{duplicate_class, opt_class_view, Classification, ItemKind};
use crate::loadout_sync::types::ImageRect;

verus! {

/// Plain view of a classification (scores as order keys).
pub struct ClassView {
    pub item_id: Seq<char>,
    pub match_score: i32,
    pub match_margin: i32,
    pub gate_quality: i32,
}

/// A slot of the current frame (geometry + optional classification).
#[derive(Debug, Clone, PartialEq)]
pub struct SlotRef {
    pub row: u32,
    pub col: u32,
    pub rect: ImageRect,
    /// Whether the slot can take the wanted item kind (decided by the caller).
    pub selectable: bool,
    /// Whether the slot has content (independent of being recognised).
    pub occupied: bool,
    pub classification: Option<Classification>,
}

/// Plain view of a slot.
pub struct SlotRefView {
    pub row: u32,
    pub col: u32,
    pub rect: ImageRect,
    pub selectable: bool,
    pub occupied: bool,
    pub classification: Option<ClassView>,
}

impl View for SlotRef {
    type V = SlotRefView;

    open spec fn view(&self) -> SlotRefView {
        SlotRefView {
            row: self.row,
            col: self.col,
            rect: self.rect,
            selectable: self.selectable,
            occupied: self.occupied,
            classification: opt_class_view(self.classification),
        }
    }
}

impl SlotRef {
    /// The centre of the slot.
    pub fn center(&self) -> (r: (i32, i32))
        requires
            i32::MIN <= self.rect.center_spec().0 <= i32::MAX,
            i32::MIN <= self.rect.center_spec().1 <= i32::MAX,
        ensures
            r.0 == self.rect.center_spec().0,
            r.1 == self.rect.center_spec().1,
    {
        self.rect.center()
    }

    /// Whether the slot takes part in planning for `kind` (as the caller
    /// marked it).
    pub fn is_selectable_item_for(&self, kind: ItemKind) -> (r: bool)
        ensures
            r == self.selectable,
    {
        self.selectable
    }

    /// A field-by-field copy.
    pub fn duplicate(&self) -> (r: SlotRef)
        ensures
            r@ == self@,
    {
        SlotRef {
            row: self.row,
            col: self.col,
            rect: self.rect,
            selectable: self.selectable,
            occupied: self.occupied,
            classification: duplicate_class(&self.classification),
        }
    }
}

/// A clickable target: catalog identity plus its place in the current frame.
#[derive(Debug, Clone, PartialEq)]
pub struct DirectClickTarget {
    pub item_id: String,
    pub match_score: i32,
    pub match_margin: i32,
    pub gate_quality: i32,
    pub slot: SlotRef,
}

/// Plain view of a target.
pub struct TargetView {
    pub item_id: Seq<char>,
    pub match_score: i32,
    pub match_margin: i32,
    pub gate_quality: i32,
    pub slot: SlotRefView,
}

impl View for DirectClickTarget {
    type V = TargetView;

    open spec fn view(&self) -> TargetView {
        TargetView {
            item_id: self.item_id@,
            match_score: self.match_score,
            match_margin: self.match_margin,
            gate_quality: self.gate_quality,
            slot: self.slot@,
        }
    }
}

/// Slot `s` is a selectable slot classified as `id`.
pub open spec fn hits(s: SlotRefView, id: Seq<char>) -> bool {
    s.selectable && s.classification is Some && s.classification->0.item_id == id
}

/// Classification `a` ranks no higher than `b` (gate, then margin, then score).
pub open spec fn ranks_le(a: ClassView, b: ClassView) -> bool {
    a.gate_quality < b.gate_quality || (a.gate_quality == b.gate_quality && (a.match_margin
        < b.match_margin || (a.match_margin == b.match_margin && a.match_score
        <= b.match_score)))
}

/// Index of the best hit of `id` among the first `n` slots; on ties the later
/// slot wins.
pub open spec fn best_hit(slots: Seq<SlotRefView>, id: Seq<char>, n: int) -> Option<int>
    decreases n,
{
    if n <= 0 {
        None
    } else {
        let prev = best_hit(slots, id, n - 1);
        if hits(slots[n - 1], id) && (prev is None || ranks_le(
            slots[prev->0].classification->0,
            slots[n - 1].classification->0,
        )) {
            Some(n - 1)
        } else {
            prev
        }
    }
}

/// The target made from a hit slot.
pub open spec fn target_of(s: SlotRefView) -> TargetView {
    let c = s.classification->0;
    TargetView {
        item_id: c.item_id,
        match_score: c.match_score,
        match_margin: c.match_margin,
        gate_quality: c.gate_quality,
        slot: s,
    }
}

/// The best target for `id` on the page.
pub open spec fn visible_target(slots: Seq<SlotRefView>, id: Seq<char>) -> Option<TargetView> {
    match best_hit(slots, id, slots.len() as int) {
        Some(i) => Some(target_of(slots[i])),
        None => None,
    }
}

/// Views of a slot list.
pub open spec fn slot_views(slots: Seq<SlotRef>) -> Seq<SlotRefView> {
    slots.map_values(|s: SlotRef| s@)
}

proof fn lemma_best_hit_bounds(slots: Seq<SlotRefView>, id: Seq<char>, n: int)
    requires
        n <= slots.len(),
    ensures
        best_hit(slots, id, n) matches Some(i) ==> 0 <= i < n && hits(slots[i], id),
    decreases n,
{
    if n > 0 {
        lemma_best_hit_bounds(slots, id, n - 1);
    }
}

/// The best slot classified as `item_id` among the selectable slots.
///
/// Several hits are resolved by gate quality, then margin, then score; on a
/// complete tie the later slot is taken.
pub fn find_visible_target(slots: &[SlotRef], item_id: &str, kind: ItemKind) -> (r: Option<
    DirectClickTarget,
>)
    ensures
        match r {
            Some(t) => visible_target(slot_views(slots@), item_id@) == Some(t@),
            None => visible_target(slot_views(slots@), item_id@) is None,
        },
{
    let ghost sv = slot_views(slots@);
    let mut best: Option<usize> = None;
    let mut i: usize = 0;
    while i < slots.len()
        invariant
            i <= slots@.len(),
            sv == slot_views(slots@),
            sv.len() == slots@.len(),
            best matches Some(b) ==> best_hit(sv, item_id@, i as int) == Some(b as int) && b < i,
            best is None ==> best_hit(sv, item_id@, i as int) is None,
        decreases slots@.len() - i,
    {
        let s = &slots[i];
        proof {
            assert(sv[i as int] == s@);
            lemma_best_hit_bounds(sv, item_id@, i as int);
        }
        if s.is_selectable_item_for(kind) {
            match &s.classification {
                Some(c) => {
                    if crate::text::str_eq(c.item_id.as_str(), item_id) {
                        let better = match best {
                            None => true,
                            Some(b) => {
                                let p = match &slots[b].classification {
                                    Some(pc) => pc,
                                    None => {
                                        proof {
                                            assert(sv[b as int] == slots@[b as int]@);
                                        }
                                        assert(false);
                                        return None;
                                    },
                                };
                                proof {
                                    assert(sv[b as int] == slots@[b as int]@);
                                }
                                p.gate_quality < c.gate_quality || (p.gate_quality
                                    == c.gate_quality && (p.match_margin < c.match_margin || (
                                p.match_margin == c.match_margin && p.match_score
                                    <= c.match_score)))
                            },
                        };
                        if better {
                            best = Some(i);
                        }
                    }
                },
                None => {},
            }
        }
        i = i + 1;
    }
    match best {
        Some(b) => {
            let s = &slots[b];
            proof {
                assert(sv[b as int] == s@);
            }
            match &s.classification {
                Some(c) => Some(
                    DirectClickTarget {
                        item_id: c.item_id.clone(),
                        match_score: c.match_score,
                        match_margin: c.match_margin,
                        gate_quality: c.gate_quality,
                        slot: s.duplicate(),
                    },
                ),
                None => {
                    proof {
                        lemma_best_hit_bounds(sv, item_id@, slots@.len() as int);
                    }
                    None
                },
            }
        },
        None => None,
    }
}

/// The target found for `id` is classified as `id`.
pub proof fn lemma_visible_target_id(slots: Seq<SlotRefView>, id: Seq<char>)
    ensures
        visible_target(slots, id) matches Some(t) ==> t.item_id == id,
{
    lemma_best_hit_bounds(slots, id, slots.len() as int);
}

/// Vertical order key of a slot: twice its centre line (`2y + h`).
pub open spec fn center_line2(r: ImageRect) -> int {
    2 * r.y + r.h
}

/// Target `a` comes strictly before `b`: higher on screen, then further left.
pub open spec fn before(a: TargetView, b: TargetView) -> bool {
    center_line2(a.slot.rect) < center_line2(b.slot.rect) || (center_line2(a.slot.rect)
        == center_line2(b.slot.rect) && a.slot.rect.x < b.slot.rect.x)
}

/// The first (in `remaining` order) of the topmost-leftmost visible targets
/// among the first `n` remaining ids.
pub open spec fn next_target(slots: Seq<SlotRefView>, remaining: Seq<Seq<char>>, n: int) -> Option<
    TargetView,
>
    decreases n,
{
    if n <= 0 {
        None
    } else {
        let prev = next_target(slots, remaining, n - 1);
        match visible_target(slots, remaining[n - 1]) {
            Some(t) => if prev is None || before(t, prev->0) {
                Some(t)
            } else {
                prev
            },
            None => prev,
        }
    }
}

/// The next target is one of the first `n` remaining ids.
pub proof fn lemma_next_target_in_remaining(slots: Seq<SlotRefView>, remaining: Seq<Seq<char>>, n: int)
    requires
        n <= remaining.len(),
    ensures
        next_target(slots, remaining, n) matches Some(t) ==> exists|j: int|
            0 <= j < n && remaining[j] == t.item_id,
    decreases n,
{
    if n > 0 {
        lemma_next_target_in_remaining(slots, remaining, n - 1);
        lemma_visible_target_id(slots, remaining[n - 1]);
    }
}

/// Views of a list of ids.
pub open spec fn id_views(ids: Seq<String>) -> Seq<Seq<char>> {
    ids.map_values(|s: String| s@)
}

/// `2y + h` of a rectangle.
fn center_line2_of(r: &ImageRect) -> (k: i64)
    ensures
        k == center_line2(*r),
{
    2 * (r.y as i64) + (r.h as i64)
}

/// The target to select next among the remaining ones: the visible one
/// highest on screen, then furthest left (visible targets first, so nothing is
/// scrolled for an invisible one).
pub fn next_visible_target(slots: &[SlotRef], remaining: &[String], kind: ItemKind) -> (r: Option<
    DirectClickTarget,
>)
    ensures
        match r {
            Some(t) => next_target(
                slot_views(slots@),
                id_views(remaining@),
                remaining@.len() as int,
            ) == Some(t@),
            None => next_target(
                slot_views(slots@),
                id_views(remaining@),
                remaining@.len() as int,
            ) is None,
        },
{
    let ghost sv = slot_views(slots@);
    let ghost ids = id_views(remaining@);
    let mut cur: Option<DirectClickTarget> = None;
    let mut k: usize = 0;
    while k < remaining.len()
        invariant
            k <= remaining@.len(),
            sv == slot_views(slots@),
            ids == id_views(remaining@),
            match cur {
                Some(t) => next_target(sv, ids, k as int) == Some(t@),
                None => next_target(sv, ids, k as int) is None,
            },
        decreases remaining@.len() - k,
    {
        proof {
            assert(ids[k as int] == remaining@[k as int]@);
        }
        let cand = find_visible_target(slots, remaining[k].as_str(), kind);
        match cand {
            Some(t) => {
                let take = match &cur {
                    None => true,
                    Some(c) => {
                        let kt = center_line2_of(&t.slot.rect);
                        let kc = center_line2_of(&c.slot.rect);
                        kt < kc || (kt == kc && t.slot.rect.x < c.slot.rect.x)
                    },
                };
                if take {
                    cur = Some(t);
                }
            },
            None => {},
        }
        k = k + 1;
    }
    cur
}

/// Top-to-bottom (by centre line), then left-to-right order of two targets.
pub fn compare_center_then_x(left: &DirectClickTarget, right: &DirectClickTarget) -> (r:
    std::cmp::Ordering)
    ensures
        (r == std::cmp::Ordering::Less) == before(left@, right@),
        (r == std::cmp::Ordering::Greater) == before(right@, left@),
{
    let kl = center_line2_of(&left.slot.rect);
    let kr = center_line2_of(&right.slot.rect);
    if kl < kr {
        std::cmp::Ordering::Less
    } else if kr < kl {
        std::cmp::Ordering::Greater
    } else if left.slot.rect.x < right.slot.rect.x {
        std::cmp::Ordering::Less
    } else if right.slot.rect.x < left.slot.rect.x {
        std::cmp::Ordering::Greater
    } else {
        std::cmp::Ordering::Equal
    }
}

} // verus!
