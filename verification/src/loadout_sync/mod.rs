//! Loadout Sync: H2AC slots 06..10 mapped onto the game's loadout screen.
pub mod capture;
pub mod catalog_bridge;
pub mod components;
pub mod config;
pub mod controller;
pub mod direct_select;
pub mod error;
pub mod input;
pub mod list_map;
pub mod matcher;
pub mod reference_vision;
pub mod selection;
pub mod state;
pub mod types;
