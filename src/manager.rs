//! The window manager: a display connection and the state it drives.
use vstd::prelude::*;

use crate::state::State;

verus! {

/// A window manager over the display connection `X`.
pub struct WindowManager<X> {
    /// The connection to the display server.
    pub conn: X,
    /// What the window manager keeps track of.
    pub state: State,
}

impl<X> WindowManager<X> {
    /// A window manager over `conn`, starting from `state`.
    pub fn new(conn: X, state: State) -> (r: WindowManager<X>)
        ensures
            r.conn == conn,
            r.state == state,
    {
        WindowManager { conn, state }
    }

    /// The state the window manager holds.
    pub fn state(&self) -> (r: &State)
        ensures
            *r == self.state,
    {
        &self.state
    }
}

} // verus!
