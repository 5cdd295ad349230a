//! The cell kind a catalog item is drawn in.
//!
//! The template classifier itself scores pixels in floating point and is not
//! part of this library.
use vstd::prelude::*;
use crate::loadout_sync::matcher::CellKind;
use crate::loadout_sync::reference_vision::ItemKind;

verus! {

/// The list cell kind of an item kind (lists and home draw icons at
/// different scales).
pub fn cell_kind_for(kind: ItemKind) -> (r: CellKind)
    ensures
        r == (match kind {
            ItemKind::Stratagem => CellKind::ListStratagem,
            ItemKind::Booster => CellKind::ListBooster,
        }),
{
    match kind {
        ItemKind::Stratagem => CellKind::ListStratagem,
        ItemKind::Booster => CellKind::ListBooster,
    }
}

/// The home slot kind of an item kind.
pub fn home_cell_kind_for(kind: ItemKind) -> (r: CellKind)
    ensures
        r == (match kind {
            ItemKind::Stratagem => CellKind::HomeStratagem,
            ItemKind::Booster => CellKind::HomeBooster,
        }),
{
    match kind {
        ItemKind::Stratagem => CellKind::HomeStratagem,
        ItemKind::Booster => CellKind::HomeBooster,
    }
}

} // verus!
