//! State model and tiling layouts for a tiling window manager.
use vstd::prelude::*;

pub mod client;
pub mod clients;
pub mod error;
pub mod layout;
pub mod manager;
pub mod region;
pub mod screen;
pub mod state;
pub mod workspace;
pub mod workspaces;

verus! {

/// Identifier of a window, as handed out by the display connection.
pub type Xid = u32;

} // verus!
