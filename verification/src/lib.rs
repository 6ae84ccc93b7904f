//! Core logic of a sidebar manager for a tiling compositor: an ordered stack
//! of tracked floating windows kept along one screen edge.
//!
//! Every operation here is a pure function over an explicit context: the
//! persisted [`state::AppState`], the [`config::Config`], and a [`niri::Snapshot`]
//! of the compositor's live windows. Each handler returns the compositor
//! commands to issue and whether the state must be persisted; the thin
//! unverified shell around this crate performs the socket and file I/O.
use vstd::prelude::*;

pub mod commands;
pub mod config;
pub mod niri;
pub mod state;
pub mod window_rules;

use crate::config::Config;
use crate::state::AppState;

verus! {

/// The explicit context every command handler works on: the persisted state
/// and the loaded configuration. Compositor access and persistence stay
/// outside; handlers describe them through [`niri::Snapshot`] and
/// [`niri::Effects`].
pub struct Ctx {
    pub state: AppState,
    pub config: Config,
}

/// Direction for cycling the tracked-window order.
#[derive(Copy, Clone, PartialEq, Eq, Debug)]
pub enum Direction {
    Next,
    Prev,
}

/// Resolved `(width, height)` pair used for one window during a layout pass.
#[derive(Debug, Clone, Copy, PartialEq, Eq)]
pub struct WindowTarget {
    pub width: i32,
    pub height: i32,
}

/// Errors that originate in the command handlers themselves.
#[derive(Copy, Clone, PartialEq, Eq, Debug)]
pub enum SidebarError {
    /// No focused window, or an empty candidate set where one was needed.
    NotFound,
}

} // verus!
