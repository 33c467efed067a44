//! The set of workspaces, which one has the focus, and which had it before.
use vstd::prelude::*;

use crate::error::Error;
use crate::layout::Layout;
use crate::workspace::{
    clients_after_add, clients_after_remove, focused_after_add, focused_after_remove, Workspace,
};
use crate::Xid;

verus! {

/// The workspaces in order, the index of the focused one and of the one focused
/// before it.
#[derive(Clone, Debug)]
pub struct Workspaces {
    pub workspaces: Vec<Workspace>,
    pub focused_ws: usize,
    pub prev_ws: usize,
}

proof fn lemma_remove_keeps_others(s: Seq<Xid>, k: int, x: Xid)
    requires
        0 <= k < s.len(),
        s.remove(k).contains(x),
    ensures
        s.contains(x),
{
    let j = choose|j: int| 0 <= j < s.remove(k).len() && s.remove(k)[j] == x;
    if j < k {
        assert(s[j] == x);
    } else {
        assert(s[j + 1] == x);
    }
}

proof fn lemma_insert_adds_one(s: Seq<Xid>, p: int, a: Xid, x: Xid)
    requires
        0 <= p <= s.len(),
        s.insert(p, a).contains(x),
    ensures
        s.contains(x) || x == a,
{
    let j = choose|j: int| 0 <= j < s.insert(p, a).len() && s.insert(p, a)[j] == x;
    if j < p {
        assert(s[j] == x);
    } else if j > p {
        assert(s[j - 1] == x);
    }
}

impl Workspaces {
    /// The indices point at workspaces, each workspace is well formed, and no id
    /// is on two workspaces.
    pub open spec fn wf(&self) -> bool {
        &&& self.focused_ws < self.workspaces@.len()
        &&& self.prev_ws < self.workspaces@.len()
        &&& forall|i: int| 0 <= i < self.workspaces@.len() ==> #[trigger] self.workspaces@[i].wf()
        &&& forall|i: int, j: int, id: Xid|
            0 <= i < self.workspaces@.len() && 0 <= j < self.workspaces@.len() && i != j
                && #[trigger] self.workspaces@[i].clients@.contains(id)
                ==> !#[trigger] self.workspaces@[j].clients@.contains(id)
    }

    /// One empty workspace for each name, all with the same layout; the first has
    /// the focus.
    pub fn new(names: Vec<String>, layout: Layout) -> (r: Workspaces)
        requires
            names@.len() > 0,
        ensures
            r.wf(),
            r.workspaces@.len() == names@.len(),
            forall|i: int|
                0 <= i < names@.len() ==> (#[trigger] r.workspaces@[i]).name == names@[i]
                    && r.workspaces@[i].clients@.len() == 0 && r.workspaces@[i].layout == layout,
            r.focused_ws == 0,
            r.prev_ws == 0,
    {
        let mut workspaces: Vec<Workspace> = Vec::new();
        let mut i: usize = 0;
        while i < names.len()
            invariant
                i <= names@.len(),
                workspaces@.len() == i,
                forall|j: int|
                    0 <= j < i ==> (#[trigger] workspaces@[j]).name == names@[j]
                        && workspaces@[j].clients@.len() == 0 && workspaces@[j].layout == layout
                        && workspaces@[j].wf(),
            decreases names@.len() - i,
        {
            workspaces.push(Workspace::new(names[i].clone(), layout));
            i = i + 1;
        }
        let r = Workspaces { workspaces, focused_ws: 0, prev_ws: 0 };
        assert forall|i: int, j: int, id: Xid|
            0 <= i < r.workspaces@.len() && 0 <= j < r.workspaces@.len() && i != j
                && #[trigger] r.workspaces@[i].clients@.contains(id) implies !#[trigger] r.workspaces@[j].clients@.contains(
            id,
        ) by {
            assert(r.workspaces@[i].clients@.len() == 0);
        }
        r
    }

    /// The id of the focused client of the focused workspace, if it has any client.
    pub fn focused_client_id(&self) -> (r: Option<Xid>)
        requires
            self.wf(),
        ensures
            r == self.workspaces@[self.focused_ws as int].focused_id(),
    {
        self.workspaces[self.focused_ws].focused_client()
    }

    /// The index of the workspace that holds `id`, if one does.
    pub fn workspace_of(&self, id: Xid) -> (r: Option<usize>)
        requires
            self.wf(),
        ensures
            match r {
                Some(i) => i < self.workspaces@.len() && self.workspaces@[i as int].clients@.contains(
                    id,
                ),
                None => forall|i: int|
                    0 <= i < self.workspaces@.len() ==> !(
                    #[trigger] self.workspaces@[i]).clients@.contains(id),
            },
    {
        let mut i: usize = 0;
        while i < self.workspaces.len()
            invariant
                self.wf(),
                i <= self.workspaces@.len(),
                forall|j: int| 0 <= j < i ==> !(#[trigger] self.workspaces@[j]).clients@.contains(id),
            decreases self.workspaces@.len() - i,
        {
            if self.workspaces[i].contains(id) {
                return Some(i);
            }
            i = i + 1;
        }
        None
    }

    /// Focuses workspace `ix`; the one that had the focus becomes the previous one.
    /// Focusing the focused workspace changes nothing. Fails with
    /// `NoMatchingElement`, changing nothing, when there is no workspace `ix`.
    pub fn focus_workspace(&mut self, ix: usize) -> (r: Result<(), Error>)
        requires
            old(self).wf(),
        ensures
            final(self).wf(),
            final(self).workspaces@ == old(self).workspaces@,
            ix >= old(self).workspaces@.len() ==> r is Err && r->Err_0 is NoMatchingElement
                && final(self).focused_ws == old(self).focused_ws && final(self).prev_ws == old(
                self,
            ).prev_ws,
            ix < old(self).workspaces@.len() && ix == old(self).focused_ws ==> r is Ok
                && final(self).focused_ws == old(self).focused_ws && final(self).prev_ws == old(
                self,
            ).prev_ws,
            ix < old(self).workspaces@.len() && ix != old(self).focused_ws ==> r is Ok
                && final(self).focused_ws == ix && final(self).prev_ws == old(self).focused_ws,
    {
        if ix >= self.workspaces.len() {
            return Err(Error::NoMatchingElement);
        }
        if ix != self.focused_ws {
            self.prev_ws = self.focused_ws;
            self.focused_ws = ix;
        }
        Ok(())
    }

    /// Moves client `id` from the workspace that holds it to workspace `to`: it
    /// leaves the first as `Workspace::remove_client` says and joins `to` as
    /// `Workspace::insert_client` says, taking the focus there only when it had
    /// the focus on the first. Moving it to the workspace it is on changes
    /// nothing. Fails, changing nothing, with `NoMatchingElement` when there is no
    /// workspace `to` and with `UnknownClient` when no workspace holds `id`.
    pub fn move_client(&mut self, id: Xid, to: usize) -> (r: Result<(), Error>)
        requires
            old(self).wf(),
            forall|i: int|
                0 <= i < old(self).workspaces@.len() ==> (#[trigger] old(
                    self,
                ).workspaces@[i]).clients@.len() < usize::MAX,
        ensures
            final(self).wf(),
            final(self).focused_ws == old(self).focused_ws,
            final(self).prev_ws == old(self).prev_ws,
            final(self).workspaces@.len() == old(self).workspaces@.len(),
            to >= old(self).workspaces@.len() ==> r is Err && r->Err_0 is NoMatchingElement
                && final(self).workspaces@ == old(self).workspaces@,
            to < old(self).workspaces@.len() && (forall|i: int|
                0 <= i < old(self).workspaces@.len() ==> !(
                #[trigger] old(self).workspaces@[i]).clients@.contains(id)) ==> r is Err
                && r->Err_0 == Error::UnknownClient(id) && final(self).workspaces@ == old(
                self,
            ).workspaces@,
            forall|from: int|
                0 <= from < old(self).workspaces@.len() && to < old(self).workspaces@.len() && (
                #[trigger] old(self).workspaces@[from]).clients@.contains(id) ==> {
                    let o = old(self).workspaces@;
                    let n = final(self).workspaces@;
                    &&& r is Ok
                    &&& from == to ==> n == o
                    &&& from != to ==> {
                        &&& n[from].clients@ == clients_after_remove(o[from].clients@, id)
                        &&& n[from].focused == focused_after_remove(
                            o[from].clients@,
                            o[from].focused,
                            id,
                        )
                        &&& n[to as int].clients@ == clients_after_add(
                            o[to as int].clients@,
                            o[to as int].focused,
                            id,
                        )
                        &&& n[to as int].focused == focused_after_add(
                            o[to as int].focused,
                            o[from].focused_id() == Some(id),
                        )
                        &&& n[from].name == o[from].name && n[from].layout == o[from].layout
                        &&& n[to as int].name == o[to as int].name && n[to as int].layout
                            == o[to as int].layout
                        &&& forall|k: int|
                            0 <= k < o.len() && k != from && k != to ==> #[trigger] n[k] == o[k]
                    }
                },
    {
        if to >= self.workspaces.len() {
            return Err(Error::NoMatchingElement);
        }
        let from = match self.workspace_of(id) {
            Some(i) => i,
            None => {
                return Err(Error::UnknownClient(id));
            },
        };
        if from == to {
            return Ok(());
        }
        let ghost o = self.workspaces@;
        let mut src = self.workspaces.remove(from);
        let take_focus = match src.focused_client() {
            Some(f) => f == id,
            None => false,
        };
        src.remove_client(id);
        self.workspaces.insert(from, src);
        assert(self.workspaces@ =~= o.update(from as int, src));
        let ghost mid = self.workspaces@;
        let mut dst = self.workspaces.remove(to);
        proof {
            assert(!dst.clients@.contains(id));
        }
        dst.insert_client(id, take_focus);
        self.workspaces.insert(to, dst);
        assert(self.workspaces@ =~= mid.update(to as int, dst));
        proof {
            let n = self.workspaces@;
            let k = o[from as int].clients@.index_of(id);
            assert(o[to as int].wf());
            assert(o[from as int].wf());
            assert(o[from as int].clients@[k] == id);
            assert forall|i: int, j: int, x: Xid|
                0 <= i < n.len() && 0 <= j < n.len() && i != j
                    && #[trigger] n[i].clients@.contains(x) implies !#[trigger] n[j].clients@.contains(
                x,
            ) by {
                if n[j].clients@.contains(x) {
                    if i == from {
                        lemma_remove_keeps_others(o[from as int].clients@, k, x);
                    }
                    if j == from {
                        lemma_remove_keeps_others(o[from as int].clients@, k, x);
                    }
                    if i == to {
                        lemma_insert_adds_one(
                            o[to as int].clients@,
                            crate::workspace::insert_pos(o[to as int].focused),
                            id,
                            x,
                        );
                    }
                    if j == to {
                        lemma_insert_adds_one(
                            o[to as int].clients@,
                            crate::workspace::insert_pos(o[to as int].focused),
                            id,
                            x,
                        );
                    }
                    if x == id {
                        assert(!n[from as int].clients@.contains(id)) by {
                            let s = o[from as int].clients@;
                            if s.remove(k).contains(id) {
                                let t = choose|t: int| 0 <= t < s.remove(k).len() && s.remove(k)[t] == id;
                                if t < k {
                                    assert(s[t] == s[k]);
                                } else {
                                    assert(s[t + 1] == s[k]);
                                }
                            }
                        }
                    }
                }
            }
        }
        Ok(())
    }
}

} // verus!
