//! A workspace: an ordered list of clients with a focus cursor and a layout.
use vstd::prelude::*;

use crate::layout::Layout;
use crate::Xid;

verus! {

/// Where a client added to a workspace goes: at the focus cursor, or at the front
/// of an empty workspace.
pub open spec fn insert_pos(focused: Option<usize>) -> int {
    match focused {
        Some(f) => f as int,
        None => 0,
    }
}

/// The focus cursor after removing the client at `i`, leaving `new_len` clients:
/// it keeps pointing at the same client when that one stays, moves to the client
/// that took the removed one's place when the focused one went (to the new last
/// one when the last went), and is `None` when no client is left.
pub open spec fn focus_after_remove(focused: Option<usize>, i: int, new_len: int) -> Option<usize> {
    if new_len == 0 {
        None
    } else {
        match focused {
            Some(f) => if i < f {
                Some((f - 1) as usize)
            } else if f < new_len {
                Some(f)
            } else {
                Some((new_len - 1) as usize)
            },
            None => None,
        }
    }
}

/// The clients after removing `id`, if it is there.
pub open spec fn clients_after_remove(clients: Seq<Xid>, id: Xid) -> Seq<Xid> {
    if clients.contains(id) {
        clients.remove(clients.index_of(id))
    } else {
        clients
    }
}

/// The focus cursor after removing `id`, if it is there.
pub open spec fn focused_after_remove(clients: Seq<Xid>, focused: Option<usize>, id: Xid) -> Option<
    usize,
> {
    if clients.contains(id) {
        focus_after_remove(focused, clients.index_of(id), clients.len() - 1)
    } else {
        focused
    }
}

/// The clients after adding `id` at the focus cursor.
pub open spec fn clients_after_add(clients: Seq<Xid>, focused: Option<usize>, id: Xid) -> Seq<Xid> {
    clients.insert(insert_pos(focused), id)
}

/// The focus cursor after adding a client at `insert_pos`: on the new client when
/// it takes the focus; else still on the client that had it, which the insertion
/// moved one place on, or on none if none had it.
pub open spec fn focused_after_add(focused: Option<usize>, take_focus: bool) -> Option<usize> {
    match focused {
        None => if take_focus {
            Some(0)
        } else {
            None
        },
        Some(f) => if take_focus {
            Some(f)
        } else {
            Some((f + 1) as usize)
        },
    }
}

/// The clients are distinct and the focus cursor, if set, points at one of them.
pub open spec fn cursor_wf(clients: Seq<Xid>, focused: Option<usize>) -> bool {
    &&& clients.no_duplicates()
    &&& focused matches Some(f) ==> f < clients.len()
}

/// The id that the focus cursor points at, if any.
pub open spec fn focus_of(clients: Seq<Xid>, focused: Option<usize>) -> Option<Xid> {
    match focused {
        Some(f) => Some(clients[f as int]),
        None => None,
    }
}

/// A named workspace: its clients in tiling order, the position of the focused
/// one, and the layout that places them.
#[derive(Clone, Debug)]
pub struct Workspace {
    pub name: String,
    pub clients: Vec<Xid>,
    pub focused: Option<usize>,
    pub layout: Layout,
}

proof fn lemma_index_of_unique(s: Seq<Xid>, i: int)
    requires
        s.no_duplicates(),
        0 <= i < s.len(),
    ensures
        s.contains(s[i]),
        s.index_of(s[i]) == i,
{
    assert(s.contains(s[i]));
    let j = s.index_of(s[i]);
    assert(0 <= j < s.len() && s[j] == s[i]);
}

proof fn lemma_add_no_duplicates(c: Seq<Xid>, f: Option<usize>, id: Xid)
    requires
        cursor_wf(c, f),
        !c.contains(id),
    ensures
        clients_after_add(c, f, id).no_duplicates(),
        clients_after_add(c, f, id)[insert_pos(f)] == id,
        clients_after_add(c, f, id).len() == c.len() + 1,
        forall|k: int| 0 <= k < insert_pos(f) ==> #[trigger] clients_after_add(c, f, id)[k] == c[k],
        forall|k: int|
            insert_pos(f) < k <= c.len() ==> #[trigger] clients_after_add(c, f, id)[k] == c[k - 1],
{
    let p = insert_pos(f);
    let a2 = clients_after_add(c, f, id);
    assert forall|a: int, b: int| 0 <= a < b < a2.len() implies a2[a] != a2[b] by {
        if a < p && b < p {
        } else if a < p && b == p {
            assert(c.contains(a2[a]));
        } else if a < p {
            assert(a2[b] == c[b - 1]);
        } else if a == p {
            assert(a2[b] == c[b - 1] && c.contains(a2[b]));
        } else {
            assert(a2[a] == c[a - 1] && a2[b] == c[b - 1]);
        }
    }
}

impl Workspace {
    /// The clients are distinct and the focus cursor, if set, points at one of them.
    pub open spec fn wf(&self) -> bool {
        cursor_wf(self.clients@, self.focused)
    }

    /// The id of the focused client, if any.
    pub open spec fn focused_id(&self) -> Option<Xid> {
        focus_of(self.clients@, self.focused)
    }

    /// An empty workspace.
    pub fn new(name: String, layout: Layout) -> (w: Workspace)
        ensures
            w.wf(),
            w.name == name,
            w.clients@.len() == 0,
            w.layout == layout,
    {
        Workspace { name, clients: Vec::new(), focused: None, layout }
    }

    /// The ids of the clients, in tiling order.
    pub fn client_ids(&self) -> (r: &Vec<Xid>)
        ensures
            r@ == self.clients@,
    {
        &self.clients
    }

    /// The number of clients.
    pub fn len(&self) -> (r: usize)
        ensures
            r == self.clients@.len(),
    {
        self.clients.len()
    }

    /// The id of the focused client, if one is focused.
    pub fn focused_client(&self) -> (r: Option<Xid>)
        requires
            self.wf(),
        ensures
            r == self.focused_id(),
    {
        match self.focused {
            Some(f) => Some(self.clients[f]),
            None => None,
        }
    }

    /// Where `id` stands in the workspace, if it is there.
    pub fn position(&self, id: Xid) -> (r: Option<usize>)
        requires
            self.wf(),
        ensures
            match r {
                Some(i) => i < self.clients@.len() && self.clients@[i as int] == id
                    && self.clients@.index_of(id) == i,
                None => !self.clients@.contains(id),
            },
    {
        let mut i: usize = 0;
        while i < self.clients.len()
            invariant
                self.wf(),
                i <= self.clients@.len(),
                forall|j: int| 0 <= j < i ==> self.clients@[j] != id,
            decreases self.clients@.len() - i,
        {
            if self.clients[i] == id {
                proof {
                    lemma_index_of_unique(self.clients@, i as int);
                }
                return Some(i);
            }
            i = i + 1;
        }
        None
    }

    /// Whether `id` is one of the clients.
    pub fn contains(&self, id: Xid) -> (r: bool)
        requires
            self.wf(),
        ensures
            r == self.clients@.contains(id),
    {
        self.position(id).is_some()
    }

    /// Adds a client that is not yet on the workspace at the focus cursor (in front
    /// of the focused client, or at the front when none is focused). It takes the
    /// focus when `take_focus` holds; else the focus stays where it was.
    pub fn insert_client(&mut self, id: Xid, take_focus: bool)
        requires
            old(self).wf(),
            !old(self).clients@.contains(id),
            old(self).clients@.len() < usize::MAX,
        ensures
            final(self).wf(),
            final(self).clients@ == clients_after_add(old(self).clients@, old(self).focused, id),
            final(self).focused == focused_after_add(old(self).focused, take_focus),
            final(self).name == old(self).name,
            final(self).layout == old(self).layout,
    {
        let pos: usize = match self.focused {
            Some(f) => f,
            None => 0,
        };
        self.clients.insert(pos, id);
        self.focused = match self.focused {
            Some(f) => if take_focus {
                Some(f)
            } else {
                Some(f + 1)
            },
            None => if take_focus {
                Some(0)
            } else {
                None
            },
        };
        proof {
            lemma_add_no_duplicates(old(self).clients@, old(self).focused, id);
        }
    }

    /// Adds a client that is not yet on the workspace at the focus cursor (in front
    /// of the focused client) and focuses it.
    pub fn add_client(&mut self, id: Xid)
        requires
            old(self).wf(),
            !old(self).clients@.contains(id),
            old(self).clients@.len() < usize::MAX,
        ensures
            final(self).wf(),
            final(self).clients@ == clients_after_add(old(self).clients@, old(self).focused, id),
            final(self).focused == focused_after_add(old(self).focused, true),
            final(self).name == old(self).name,
            final(self).layout == old(self).layout,
    {
        self.insert_client(id, true);
    }

    /// Removes `id` if it is on the workspace, and says whether it was. The focus
    /// cursor follows `focus_after_remove`.
    pub fn remove_client(&mut self, id: Xid) -> (r: Option<Xid>)
        requires
            old(self).wf(),
        ensures
            final(self).wf(),
            final(self).clients@ == clients_after_remove(old(self).clients@, id),
            final(self).focused == focused_after_remove(old(self).clients@, old(self).focused, id),
            r == (if old(self).clients@.contains(id) {
                Some(id)
            } else {
                None::<Xid>
            }),
            final(self).name == old(self).name,
            final(self).layout == old(self).layout,
    {
        match self.position(id) {
            None => None,
            Some(i) => {
                self.clients.remove(i);
                let n = self.clients.len();
                self.focused = if n == 0 {
                    None
                } else {
                    match self.focused {
                        Some(f) => if i < f {
                            Some(f - 1)
                        } else if f < n {
                            Some(f)
                        } else {
                            Some(n - 1)
                        },
                        None => None,
                    }
                };
                proof {
                    let s = self.clients@;
                    let o = old(self).clients@;
                    assert forall|a: int, b: int| 0 <= a < b < s.len() implies s[a] != s[b] by {
                        if a < i && b < i {
                        } else if a < i {
                            assert(s[b] == o[b + 1]);
                        } else {
                            assert(s[a] == o[a + 1] && s[b] == o[b + 1]);
                        }
                    }
                }
                Some(id)
            },
        }
    }
}

/// Moving a client from one workspace to another and back, where each move gives
/// the client the focus on its destination only when it had the focus on its
/// source, leaves the second workspace as it was (its clients in order and its
/// focus cursor) and the first focused on the client it was focused on. When the
/// moved client was the focused one and not the last of several, the first
/// workspace is restored in full. A focused client must not be moved to a
/// workspace that has clients but none focused: it takes the focus there, and
/// when it leaves, the focus passes to the client in its place.
pub proof fn lemma_move_round_trip(
    c1: Seq<Xid>,
    f1: Option<usize>,
    c2: Seq<Xid>,
    f2: Option<usize>,
    id: Xid,
)
    requires
        cursor_wf(c1, f1),
        cursor_wf(c2, f2),
        c1.len() < usize::MAX,
        c2.len() < usize::MAX,
        c1.contains(id),
        !c2.contains(id),
        focus_of(c1, f1) == Some(id) && c2.len() > 0 ==> f2 is Some,
    ensures
        ({
            let t1 = focus_of(c1, f1) == Some(id);
            let a1 = clients_after_remove(c1, id);
            let g1 = focused_after_remove(c1, f1, id);
            let a2 = clients_after_add(c2, f2, id);
            let g2 = focused_after_add(f2, t1);
            let t2 = focus_of(a2, g2) == Some(id);
            let b1 = clients_after_add(a1, g1, id);
            let h1 = focused_after_add(g1, t2);
            &&& clients_after_remove(a2, id) == c2
            &&& focused_after_remove(a2, g2, id) == f2
            &&& focus_of(b1, h1) == focus_of(c1, f1)
            &&& t1 && (f1.unwrap() + 1 < c1.len() || c1.len() == 1) ==> b1 == c1 && h1 == f1
        }),
{
    let t1 = focus_of(c1, f1) == Some(id);
    let f = f1.unwrap() as int;
    let i = c1.index_of(id);
    assert(0 <= i < c1.len() && c1[i] == id);
    lemma_index_of_unique(c1, i);
    let a1 = clients_after_remove(c1, id);
    let g1 = focused_after_remove(c1, f1, id);
    assert(a1 == c1.remove(i));
    let p = insert_pos(f2);
    let a2 = clients_after_add(c2, f2, id);
    let g2 = focused_after_add(f2, t1);
    lemma_add_no_duplicates(c2, f2, id);
    lemma_index_of_unique(a2, p);
    assert(a2.remove(p) =~= c2);
    let b1 = clients_after_add(a1, g1, id);
    let gv = insert_pos(g1);
    assert(0 <= gv <= a1.len());
    if t1 {
        assert(i == f);
        assert(g2 == Some(p as usize));
        assert(focus_of(a2, g2) == Some(id));
        let h1 = focused_after_add(g1, true);
        assert(h1 == Some(gv as usize));
        assert(b1[gv] == id);
        assert(focus_of(b1, h1) == Some(id));
        if f + 1 < c1.len() || c1.len() == 1 {
            assert(gv == f);
            assert(a1.insert(f, id) =~= c1);
        }
    } else {
        if f2 is Some {
            let g = f2.unwrap() as int;
            assert(p == g);
            assert(a2[g + 1] == c2[g]);
            assert(c2.contains(c2[g]));
        }
        assert(focus_of(a2, g2) != Some(id));
        let h1 = focused_after_add(g1, false);
        if f1 is Some {
            assert(i != f);
            assert(gv < a1.len());
            assert(a1[gv] == c1[f]);
            assert(h1 == Some((gv + 1) as usize));
            assert(b1[gv + 1] == a1[gv]);
            assert(focus_of(b1, h1) == Some(c1[f]));
        } else {
            assert(h1 is None);
        }
    }
}

} // verus!
