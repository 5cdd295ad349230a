//! Vision-layer types of the selection state machine: item kinds, slot kinds,
//! classifications and observed slots.
//!
//! Classification scores are carried as total-order keys: the integer whose
//! order is the order `f32::total_cmp` gives the score.
use vstd::prelude::*;
use crate::loadout_sync::types::ImageRect;
use crate::loadout_sync::direct_select::click_plan::{ClassView, SlotRef, SlotRefView};
use crate::loadout_sync::direct_select::page_relation::{TrackedSlot, TrackedView};

verus! {

/// Item kind: stratagems and boosters live in two separate lists.
#[derive(Debug, Clone, Copy, PartialEq, Eq, Hash, Structural)]
pub enum ItemKind {
    Stratagem,
    Booster,
}

/// Kind of a slot on screen.
#[derive(Debug, Clone, Copy, PartialEq, Eq, Structural)]
pub enum SlotKind {
    /// A cell of the stratagem list.
    ListStratagem,
    /// A stratagem slot on the home screen.
    HomeStratagem,
    /// The booster hexagon on the home screen.
    HomeBooster,
    /// A cell of the booster list.
    ListBooster,
}

impl SlotKind {
    /// Stable label of the kind.
    pub open spec fn label_spec(self) -> Seq<char> {
        match self {
            SlotKind::ListStratagem => "list_stratagem"@,
            SlotKind::HomeStratagem => "home_stratagem"@,
            SlotKind::HomeBooster => "home_booster"@,
            SlotKind::ListBooster => "list_booster"@,
        }
    }

    /// Stable label of the kind.
    pub fn label(self) -> (r: &'static str)
        ensures
            r@ == self.label_spec(),
    {
        match self {
            SlotKind::ListStratagem => "list_stratagem",
            SlotKind::HomeStratagem => "home_stratagem",
            SlotKind::HomeBooster => "home_booster",
            SlotKind::ListBooster => "list_booster",
        }
    }

    /// The slot holds a booster.
    pub fn is_booster(self) -> (r: bool)
        ensures
            r == (self is HomeBooster || self is ListBooster),
    {
        match self {
            SlotKind::HomeBooster | SlotKind::ListBooster => true,
            _ => false,
        }
    }

    /// The slot is a list cell (scrollable viewport).
    pub fn is_list(self) -> (r: bool)
        ensures
            r == (self is ListStratagem || self is ListBooster),
    {
        match self {
            SlotKind::ListStratagem | SlotKind::ListBooster => true,
            _ => false,
        }
    }

    /// Boosters only go to booster slots, stratagems only to stratagem slots.
    pub open spec fn selectable_for(self, kind: ItemKind) -> bool {
        match kind {
            ItemKind::Stratagem => self is ListStratagem || self is HomeStratagem,
            ItemKind::Booster => self is ListBooster || self is HomeBooster,
        }
    }

    /// Whether an item of `kind` can be selected in this slot.
    pub fn is_selectable_item_for(self, kind: ItemKind) -> (r: bool)
        ensures
            r == self.selectable_for(kind),
    {
        match kind {
            ItemKind::Stratagem => match self {
                SlotKind::ListStratagem | SlotKind::HomeStratagem => true,
                _ => false,
            },
            ItemKind::Booster => match self {
                SlotKind::ListBooster | SlotKind::HomeBooster => true,
                _ => false,
            },
        }
    }

    /// The list kind for an item kind.
    pub fn list_kind_for(kind: ItemKind) -> (r: SlotKind)
        ensures
            r == match kind {
                ItemKind::Stratagem => SlotKind::ListStratagem,
                ItemKind::Booster => SlotKind::ListBooster,
            },
    {
        match kind {
            ItemKind::Stratagem => SlotKind::ListStratagem,
            ItemKind::Booster => SlotKind::ListBooster,
        }
    }
}

/// One classification result.
#[derive(Debug, Clone, PartialEq)]
pub struct Classification {
    /// Catalog id.
    pub item_id: String,
    /// Order key of the best candidate's match score.
    pub match_score: i32,
    /// Order key of the gap between best and second best.
    pub match_margin: i32,
    /// Order key of how trustworthy the crop is.
    pub gate_quality: i32,
}

impl View for Classification {
    type V = ClassView;

    open spec fn view(&self) -> ClassView {
        ClassView {
            item_id: self.item_id@,
            match_score: self.match_score,
            match_margin: self.match_margin,
            gate_quality: self.gate_quality,
        }
    }
}

/// View of an optional classification.
pub open spec fn opt_class_view(c: Option<Classification>) -> Option<ClassView> {
    match c {
        Some(x) => Some(x@),
        None => None,
    }
}

impl Classification {
    /// A classification from its parts.
    pub fn new(item_id: &str, match_score: i32, match_margin: i32, gate_quality: i32) -> (r:
        Classification)
        ensures
            r@ == (ClassView { item_id: item_id@, match_score, match_margin, gate_quality }),
    {
        Classification { item_id: String::from_str(item_id), match_score, match_margin, gate_quality }
    }

    /// A field-by-field copy.
    pub fn duplicate(&self) -> (r: Classification)
        ensures
            r@ == self@,
    {
        Classification {
            item_id: self.item_id.clone(),
            match_score: self.match_score,
            match_margin: self.match_margin,
            gate_quality: self.gate_quality,
        }
    }
}

/// Copies an optional classification.
pub fn duplicate_class(c: &Option<Classification>) -> (r: Option<Classification>)
    ensures
        opt_class_view(r) == opt_class_view(*c),
{
    match c {
        Some(x) => Some(x.duplicate()),
        None => None,
    }
}

/// A recognised slot.
#[derive(Debug, Clone, PartialEq)]
pub struct ObservedSlot {
    pub row: u32,
    pub col: u32,
    pub rect: ImageRect,
    pub kind: SlotKind,
    /// The slot has content (home: from the empty-slot test; list: always).
    /// `occupied` with no classification means "something unrecognised": never
    /// to be clicked as empty, never a confirmed target.
    pub occupied: bool,
    /// `None` when classification failed (unknown), never a default id.
    pub classification: Option<Classification>,
}

/// Plain view of an observed slot.
pub struct ObservedView {
    pub row: u32,
    pub col: u32,
    pub rect: ImageRect,
    pub kind: SlotKind,
    pub occupied: bool,
    pub classification: Option<ClassView>,
}

impl View for ObservedSlot {
    type V = ObservedView;

    open spec fn view(&self) -> ObservedView {
        ObservedView {
            row: self.row,
            col: self.col,
            rect: self.rect,
            kind: self.kind,
            occupied: self.occupied,
            classification: opt_class_view(self.classification),
        }
    }
}

impl ObservedSlot {
    /// The slot takes part in identity comparisons (it is classified).
    pub fn is_identity(&self) -> (r: bool)
        ensures
            r == (self@.classification is Some),
    {
        self.classification.is_some()
    }

    /// The slot is an empty, fillable position.
    pub fn is_empty(&self) -> (r: bool)
        ensures
            r == !self@.occupied,
    {
        !self.occupied
    }

    /// The form used by target planning.
    pub fn as_slot_ref(&self) -> (r: SlotRef)
        ensures
            r@ == (SlotRefView {
                row: self@.row,
                col: self@.col,
                rect: self@.rect,
                selectable: true,
                occupied: self@.occupied,
                classification: self@.classification,
            }),
    {
        SlotRef {
            row: self.row,
            col: self.col,
            rect: self.rect,
            selectable: true,
            occupied: self.occupied,
            classification: duplicate_class(&self.classification),
        }
    }

    /// The form used by page relation tracking.
    pub fn as_tracked(&self) -> (r: TrackedSlot)
        ensures
            r@ == (TrackedView {
                row: self@.row,
                col: self@.col,
                rect: self@.rect,
                item_id: match self@.classification {
                    Some(c) => Some(c.item_id),
                    None => None,
                },
            }),
    {
        TrackedSlot {
            row: self.row,
            col: self.col,
            rect: self.rect,
            item_id: match &self.classification {
                Some(c) => Some(c.item_id.clone()),
                None => None,
            },
        }
    }
}

/// Screen state.
#[derive(Debug, Clone, Copy, PartialEq, Eq, Structural)]
pub enum UiState {
    /// Home with at least one empty slot.
    HomeEmpty,
    /// Home with every slot filled.
    HomeFilled,
    /// The stratagem list.
    StratagemList,
    /// The booster list.
    BoosterList,
}

impl UiState {
    /// Stable label of the state.
    pub open spec fn label_spec(self) -> Seq<char> {
        match self {
            UiState::HomeEmpty => "home_empty"@,
            UiState::HomeFilled => "home_filled"@,
            UiState::StratagemList => "stratagem_list"@,
            UiState::BoosterList => "booster_list"@,
        }
    }

    /// Stable label of the state.
    pub fn label(self) -> (r: &'static str)
        ensures
            r@ == self.label_spec(),
    {
        match self {
            UiState::HomeEmpty => "home_empty",
            UiState::HomeFilled => "home_filled",
            UiState::StratagemList => "stratagem_list",
            UiState::BoosterList => "booster_list",
        }
    }

    /// The home screen (empty or filled).
    pub fn is_home(self) -> (r: bool)
        ensures
            r == (self is HomeEmpty || self is HomeFilled),
    {
        match self {
            UiState::HomeEmpty | UiState::HomeFilled => true,
            _ => false,
        }
    }

    /// The item kind of the open list (`None` on home).
    pub fn list_kind(self) -> (r: Option<ItemKind>)
        ensures
            r == match self {
                UiState::StratagemList => Some(ItemKind::Stratagem),
                UiState::BoosterList => Some(ItemKind::Booster),
                _ => None::<ItemKind>,
            },
    {
        match self {
            UiState::StratagemList => Some(ItemKind::Stratagem),
            UiState::BoosterList => Some(ItemKind::Booster),
            _ => None,
        }
    }
}

} // verus!
