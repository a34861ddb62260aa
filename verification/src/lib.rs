//! Verified core of a terminal RSS/Atom reader: feed-list resolution,
//! entry identity and de-duplication, persisted state upkeep and the
//! state machine behind the terminal interface.

pub mod text;
pub mod model;
pub mod date_guard;
pub mod feed;
pub mod update;
pub mod config;
pub mod store;
pub mod order;
pub mod tui;
pub mod view;
pub mod laws;
