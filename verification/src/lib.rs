//! Loadout planning, overlay lifecycle and selection logic for the
//! Helldivers 2 auto stratagem caller, with verified contracts.
pub mod catalog;
pub mod compact_mode;
pub mod config;
pub mod executor;
pub mod hotkey;
pub mod loadout_sync;
pub mod text;
