//! Core of a navigable, searchable directory viewer: a one-shot volume size
//! index, a reconciled watch subscription, compiled search matchers, and a
//! per-tick orchestrator that keeps the entry list consistent.

pub mod entries;
pub mod index;
pub mod paths;
pub mod search;
pub mod settings;
pub mod state;
pub mod text;
pub mod watch;
