//! Slots tracked across page turns (identity + geometry).
//!
//! The page relation itself (median vertical shift of shared identities,
//! measured in floating point) is computed by the application.
use vstd::prelude::*;
use crate::loadout_sync::types::ImageRect;

verus! {

/// A slot taking part in identity comparison across frames.
#[derive(Debug, Clone, PartialEq)]
pub struct TrackedSlot {
    pub row: u32,
    pub col: u32,
    pub rect: ImageRect,
    /// Catalog id the slot was classified as (`None` = unclassified, never an
    /// identity).
    pub item_id: Option<String>,
}

/// Plain view of a tracked slot.
pub struct TrackedView {
    pub row: u32,
    pub col: u32,
    pub rect: ImageRect,
    pub item_id: Option<Seq<char>>,
}

impl View for TrackedSlot {
    type V = TrackedView;

    open spec fn view(&self) -> TrackedView {
        TrackedView {
            row: self.row,
            col: self.col,
            rect: self.rect,
            item_id: match self.item_id {
                Some(s) => Some(s@),
                None => None,
            },
        }
    }
}

impl TrackedSlot {
    /// Whether the slot can take part in identity comparison (it is classified).
    pub fn is_identity(&self) -> (r: bool)
        ensures
            r == (self@.item_id is Some),
    {
        self.item_id.is_some()
    }
}

} // verus!
