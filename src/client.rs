//! The windows that are managed, and what is known of each.
use vstd::prelude::*;

use crate::region::Region;
use crate::Xid;

verus! {

/// Hints a window gives on how it wants to be treated when mapped.
#[derive(Clone, Copy, Debug, PartialEq, Eq, Hash, Structural)]
pub struct WmHints {
    /// Whether the window wants keyboard input.
    pub accepts_input: bool,
    /// Whether the window asks for the user's attention.
    pub urgent: bool,
}

/// The sizes a window asks to be given.
#[derive(Clone, Copy, Debug, PartialEq, Eq, Hash, Structural)]
pub struct WmNormalHints {
    pub base: Option<Region>,
    pub min: Option<Region>,
    pub max: Option<Region>,
}

/// The properties of a window as queried from the display server, each `None`
/// where its query failed.
#[derive(Clone, Debug)]
pub struct ClientProperties {
    pub name: Option<String>,
    pub class: Option<Vec<String>>,
    pub protocols: Option<Vec<String>>,
    pub window_type: Option<Vec<String>>,
    pub hints: Option<WmHints>,
    pub normal_hints: Option<WmNormalHints>,
}

/// What is known of a window that is being managed: its properties and the state
/// flags that decide how and where it is shown.
#[derive(Clone, Debug, PartialEq, Eq, Hash)]
pub struct Client {
    pub id: Xid,
    pub wm_name: String,
    pub wm_class: Vec<String>,
    pub wm_type: Vec<String>,
    pub wm_protocols: Vec<String>,
    pub wm_hints: Option<WmHints>,
    pub wm_normal_hints: Option<WmNormalHints>,
    pub accepts_focus: bool,
    pub floating: bool,
    pub fullscreen: bool,
    pub mapped: bool,
    pub urgent: bool,
    pub wm_managed: bool,
}

/// The name a window gets when its name cannot be queried.
pub const UNKNOWN: &'static str = "unknown";

/// The window type a window gets when its type cannot be queried.
pub const NORMAL_WINDOW_TYPE: &'static str = "_NET_WM_WINDOW_TYPE_NORMAL";

/// A list of one owned copy of `s`.
fn single(s: &str) -> (r: Vec<String>)
    ensures
        r@.len() == 1,
        r@[0]@ == s@,
{
    let mut v: Vec<String> = Vec::new();
    v.push(s.to_owned());
    v
}

impl Client {
    /// A client is well formed when it has at least one class.
    pub open spec fn wf(&self) -> bool {
        self.wm_class@.len() > 0
    }

    /// A client for `id` with placeholder properties, not floating, accepting focus
    /// and managed directly.
    pub fn stub(id: Xid) -> (c: Client)
        ensures
            c.id == id,
            c.wf(),
            c.wm_name@ == "stub"@,
            c.wm_class@.len() == 1 && c.wm_class@[0]@ == "stub"@,
            c.wm_type@.len() == 1 && c.wm_type@[0]@ == "stub"@,
            c.wm_protocols@.len() == 1 && c.wm_protocols@[0]@ == "stub"@,
            !c.floating,
            c.accepts_focus,
            !c.fullscreen,
            !c.mapped,
            !c.urgent,
            c.wm_managed,
            c.wm_hints is None,
            c.wm_normal_hints is None,
    {
        Client {
            id,
            wm_name: "stub".to_owned(),
            wm_class: single("stub"),
            wm_type: single("stub"),
            wm_protocols: single("stub"),
            wm_hints: None,
            wm_normal_hints: None,
            floating: false,
            accepts_focus: true,
            fullscreen: false,
            mapped: false,
            urgent: false,
            wm_managed: true,
        }
    }

    /// The window id of this client.
    pub fn id(&self) -> (r: Xid)
        ensures
            r == self.id,
    {
        self.id
    }

    /// The first entry of this client's class list.
    pub fn wm_class(&self) -> (r: &str)
        requires
            self.wf(),
        ensures
            r@ == self.wm_class@[0]@,
    {
        self.wm_class[0].as_str()
    }

    /// The name of this client.
    pub fn wm_name(&self) -> (r: &str)
        ensures
            r@ == self.wm_name@,
    {
        self.wm_name.as_str()
    }

    /// Whether this client is currently fullscreen.
    pub fn is_fullscreen(&self) -> (r: bool)
        ensures
            r == self.fullscreen,
    {
        self.fullscreen
    }

    /// Sets whether this client floats; nothing else changes.
    pub fn set_floating(&mut self, floating: bool)
        ensures
            *final(self) == (Client { floating, ..*old(self) }),
    {
        self.floating = floating;
    }

    /// Marks this client as not managed by the window manager directly.
    pub fn externally_managed(&mut self)
        ensures
            *final(self) == (Client { wm_managed: false, ..*old(self) }),
    {
        self.wm_managed = false;
    }

    /// Marks this client as managed by the window manager directly.
    pub fn internally_managed(&mut self)
        ensures
            *final(self) == (Client { wm_managed: true, ..*old(self) }),
    {
        self.wm_managed = true;
    }
}

/// Starts tracking a window from what was queried of it. `floating` says whether
/// its class is one that floats by default and `accepts_focus` whether it takes
/// keyboard focus. Each property whose query failed gets its default: the name
/// `"unknown"`, the class list `["unknown"]` (also in place of an empty list, as a
/// client always has a class), no protocols, the normal window type and no hints.
/// The client starts neither fullscreen, mapped nor urgent, and managed directly.
pub fn new_from_x_state(id: Xid, floating: bool, accepts_focus: bool, props: ClientProperties) -> (c:
    Client)
    ensures
        c.wf(),
        c.id == id,
        c.floating == floating,
        c.accepts_focus == accepts_focus,
        match props.name {
            Some(n) => c.wm_name@ == n@,
            None => c.wm_name@ == UNKNOWN@,
        },
        match props.class {
            Some(v) => if v@.len() > 0 {
                c.wm_class@ == v@
            } else {
                c.wm_class@.len() == 1 && c.wm_class@[0]@ == UNKNOWN@
            },
            None => c.wm_class@.len() == 1 && c.wm_class@[0]@ == UNKNOWN@,
        },
        match props.protocols {
            Some(v) => c.wm_protocols@ == v@,
            None => c.wm_protocols@.len() == 0,
        },
        match props.window_type {
            Some(v) => c.wm_type@ == v@,
            None => c.wm_type@.len() == 1 && c.wm_type@[0]@ == NORMAL_WINDOW_TYPE@,
        },
        c.wm_hints == props.hints,
        c.wm_normal_hints == props.normal_hints,
        !c.fullscreen,
        !c.mapped,
        !c.urgent,
        c.wm_managed,
{
    let wm_name = match props.name {
        Some(n) => n,
        None => UNKNOWN.to_owned(),
    };
    let wm_class = match props.class {
        Some(v) => if v.len() > 0 {
            v
        } else {
            single(UNKNOWN)
        },
        None => single(UNKNOWN),
    };
    let wm_protocols = match props.protocols {
        Some(v) => v,
        None => Vec::new(),
    };
    let wm_type = match props.window_type {
        Some(v) => v,
        None => single(NORMAL_WINDOW_TYPE),
    };
    Client {
        id,
        wm_name,
        wm_class,
        wm_type,
        wm_protocols,
        wm_hints: props.hints,
        wm_normal_hints: props.normal_hints,
        floating,
        accepts_focus,
        fullscreen: false,
        mapped: false,
        urgent: false,
        wm_managed: true,
    }
}

} // verus!
