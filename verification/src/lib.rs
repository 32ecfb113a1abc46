//! traac: the verified core of a small last.fm scrobbler.
//!
//! The crate holds the configuration model, the player selection rules,
//! the scrobbling state machine and what the window shows for a state.
//! Window toolkit, D-Bus, HTTP and file access live in the application.
use vstd::prelude::*;

pub mod config;
pub mod clock;
pub mod glob;
pub mod players;
pub mod lastfm;
pub mod state;
pub mod update;
pub mod laws;
pub mod screen;
pub mod layout;
pub mod events;

verus! {
} // verus!
