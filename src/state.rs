//! Everything the window manager keeps track of.
use vstd::prelude::*;

use crate::client::Client;
use crate::clients::{known_ids_floating, refs_match, Clients};
use crate::error::Error;
use crate::layout::{layout_actions, run_layout, Layout, ResizeAction};
use crate::screen::{without_bar, Screens};
use crate::workspaces::Workspaces;

verus! {

/// What the user configures: the workspace names, the layout each workspace
/// starts with, the status bar and the classes of windows that float.
#[derive(Clone, Debug)]
pub struct Config {
    pub workspaces: Vec<String>,
    pub floating_classes: Vec<String>,
    pub layout: Layout,
    pub bar_height: u32,
    pub top_bar: bool,
}

/// The state of the window manager: its configuration, the known clients, the
/// screens and the workspaces.
#[derive(Debug)]
pub struct State {
    pub config: Config,
    pub clients: Clients,
    pub screens: Screens,
    pub workspaces: Workspaces,
}

/// An extension point that user code implements to run at named points.
pub trait Hook {}

/// The registered hooks, in the order in which they run.
pub struct Hooks {
    inner: Vec<Box<dyn Hook>>,
}

impl Hooks {
    /// No hooks.
    pub fn new() -> (r: Hooks)
        ensures
            r.len() == 0,
    {
        Hooks { inner: Vec::new() }
    }

    /// The given hooks, in order.
    pub fn from_vec(hooks: Vec<Box<dyn Hook>>) -> (r: Hooks)
        ensures
            r.len() == hooks@.len(),
    {
        Hooks { inner: hooks }
    }

    /// The number of registered hooks.
    pub closed spec fn len(&self) -> nat {
        self.inner@.len()
    }
}

proof fn lemma_tiled_fits(ids: Seq<crate::Xid>, m: vstd::map::Map<crate::Xid, Client>)
    ensures
        known_ids_floating(ids, m, false).len() <= ids.len(),
    decreases ids.len(),
{
    if ids.len() > 0 {
        lemma_tiled_fits(ids.drop_last(), m);
    }
}

impl State {
    /// A state for `config`: no clients, no screens, and one empty workspace for
    /// each configured name, the first one focused.
    pub fn new(config: Config) -> (s: State)
        requires
            config.workspaces@.len() > 0,
        ensures
            s.clients.wf(),
            s.clients@.len() == 0,
            s.screens.wf(),
            s.screens.regions@.len() == 0,
            s.workspaces.wf(),
            s.config == config,
            s.workspaces.workspaces@.len() == config.workspaces@.len(),
            forall|i: int|
                0 <= i < config.workspaces@.len() ==> (#[trigger] s.workspaces.workspaces@[i]).name
                    == config.workspaces@[i] && s.workspaces.workspaces@[i].clients@.len() == 0
                    && s.workspaces.workspaces@[i].layout == config.layout,
            s.workspaces.focused_ws == 0,
            s.workspaces.prev_ws == 0,
    {
        let workspaces = Workspaces::new(config.workspaces.clone(), config.layout);
        State { config, clients: Clients::new(), screens: Screens::new(), workspaces }
    }

    /// Lays out workspace `wix` on the first screen that shows it: its clients that
    /// do not float, in its order, go to its layout together with its focused
    /// client and the part of the screen that the status bar leaves. `None` when
    /// no screen shows the workspace. Fails with `SplitOutOfBounds`, changing
    /// nothing, when the bar is higher than the screen.
    pub fn layout_workspace(&self, wix: usize) -> (r: Result<Option<Vec<ResizeAction>>, Error>)
        requires
            self.workspaces.wf(),
            self.screens.wf(),
            wix < self.workspaces.workspaces@.len(),
            self.workspaces.workspaces@[wix as int].layout.ratio.wf(),
            self.workspaces.workspaces@[wix as int].clients@.len() <= u32::MAX,
            forall|i: int| 0 <= i < self.screens.regions@.len() ==> (#[trigger] self.screens.regions@[i]).fits(),
        ensures
            ({
                let ws = self.workspaces.workspaces@[wix as int];
                let slots = self.screens.workspace_indices@;
                let bar = self.config.bar_height;
                match r {
                    Ok(None) => !slots.contains(wix),
                    Ok(Some(acts)) => exists|i: int, tiled: Seq<&Client>|
                        0 <= i < slots.len() && slots[i] == wix && (forall|j: int|
                            0 <= j < i ==> slots[j] != wix) && bar <= self.screens.regions@[i].h
                            && refs_match(tiled, known_ids_floating(ws.clients@, self.clients@, false), self.clients@)
                            && acts@ == layout_actions(
                            ws.layout,
                            tiled,
                            ws.focused_id(),
                            without_bar(self.screens.regions@[i], bar, self.config.top_bar),
                        ),
                    Err(e) => exists|i: int|
                        0 <= i < slots.len() && slots[i] == wix && (forall|j: int|
                            0 <= j < i ==> slots[j] != wix) && bar > self.screens.regions@[i].h && e
                            == Error::SplitOutOfBounds { at: bar, extent: self.screens.regions@[i].h },
                }
            }),
    {
        let (ix, screen) = match self.screens.indexed_screen_for_workspace(wix) {
            Some(found) => found,
            None => {
                return Ok(None);
            },
        };
        let bar = self.config.bar_height;
        if bar > screen.h {
            return Err(Error::SplitOutOfBounds { at: bar, extent: screen.h });
        }
        let region = self.screens.effective_region(ix, bar, self.config.top_bar);
        let ws = &self.workspaces.workspaces[wix];
        let (_floating, tiled) = self.clients.partitioned_clients_for_workspace(ws);
        proof {
            assert(ws.wf());
            lemma_tiled_fits(ws.clients@, self.clients@);
        }
        let acts = run_layout(&ws.layout, tiled.as_slice(), ws.focused_client(), &region);
        Ok(Some(acts))
    }
}


} // verus!
