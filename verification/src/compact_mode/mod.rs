//! Compact mode: the in-game loadout preset overlay.
pub mod preset;
