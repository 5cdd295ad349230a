//! The deterministic selection state machine: recognise the screen, plan a
//! target, send bounded input, verify the change.
pub mod classify;
pub mod click_plan;
pub mod frame;
pub mod home_activation;
pub mod page_relation;
pub mod page_navigation;
pub mod list_map;
pub mod machine;
pub mod selection_verify;
pub mod session;
