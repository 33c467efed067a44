//! The registry of known clients, keyed by window id.
use std::collections::HashMap;

use vstd::prelude::*;

use crate::client::Client;
use crate::workspace::Workspace;
use crate::Xid;

verus! {

broadcast use vstd::std_specs::hash::group_hash_axioms;

/// The ids among `ids` that `m` knows, in the order of `ids`.
pub open spec fn known_ids(ids: Seq<Xid>, m: Map<Xid, Client>) -> Seq<Xid>
    decreases ids.len(),
{
    if ids.len() == 0 {
        Seq::empty()
    } else {
        let below = known_ids(ids.drop_last(), m);
        if m.contains_key(ids.last()) {
            below.push(ids.last())
        } else {
            below
        }
    }
}

/// The ids among `ids` that `m` knows and whose client floats exactly when
/// `floating` holds, in the order of `ids`.
pub open spec fn known_ids_floating(ids: Seq<Xid>, m: Map<Xid, Client>, floating: bool) -> Seq<Xid>
    decreases ids.len(),
{
    if ids.len() == 0 {
        Seq::empty()
    } else {
        let below = known_ids_floating(ids.drop_last(), m, floating);
        if m.contains_key(ids.last()) && m[ids.last()].floating == floating {
            below.push(ids.last())
        } else {
            below
        }
    }
}

/// The clients that `m` holds under `ids`, in order.
pub open spec fn lookup(ids: Seq<Xid>, m: Map<Xid, Client>) -> Seq<Client> {
    Seq::new(ids.len(), |i: int| m[ids[i]])
}

/// Whether `r` holds the clients that `m` holds under `ids`, in order.
pub open spec fn refs_match(r: Seq<&Client>, ids: Seq<Xid>, m: Map<Xid, Client>) -> bool {
    &&& r.len() == ids.len()
    &&& forall|i: int| 0 <= i < r.len() ==> *r[i] == #[trigger] lookup(ids, m)[i]
}

proof fn lemma_refs_push(r: Seq<&Client>, ids: Seq<Xid>, m: Map<Xid, Client>, c: &Client, id: Xid)
    requires
        refs_match(r, ids, m),
        m.contains_key(id),
        *c == m[id],
    ensures
        refs_match(r.push(c), ids.push(id), m),
{
    assert forall|i: int| 0 <= i < r.len() + 1 implies *r.push(c)[i] == #[trigger] lookup(
        ids.push(id),
        m,
    )[i] by {
        if i < r.len() {
            assert(lookup(ids, m)[i] == m[ids[i]]);
        }
    }
}

/// The known clients, each under its own window id.
#[derive(Debug)]
pub struct Clients {
    inner: HashMap<Xid, Client>,
}

impl View for Clients {
    type V = Map<Xid, Client>;

    closed spec fn view(&self) -> Map<Xid, Client> {
        self.inner@
    }
}

impl Clients {
    /// Each client is held under its own id.
    pub open spec fn wf(&self) -> bool {
        forall|k: Xid| #[trigger] self@.contains_key(k) ==> self@[k].id == k
    }

    /// No clients.
    pub fn new() -> (c: Clients)
        ensures
            c.wf(),
            c@ == Map::<Xid, Client>::empty(),
    {
        Clients { inner: HashMap::new() }
    }

    /// The number of known clients.
    pub fn len(&self) -> (r: usize)
        ensures
            r == self@.len(),
    {
        self.inner.len()
    }

    /// Starts tracking `c` under its id, handing back the client that was known
    /// under that id before, if any.
    pub fn insert(&mut self, c: Client) -> (r: Option<Client>)
        requires
            old(self).wf(),
        ensures
            final(self).wf(),
            final(self)@ == old(self)@.insert(c.id, c),
            r == (if old(self)@.contains_key(c.id) {
                Some(old(self)@[c.id])
            } else {
                None::<Client>
            }),
    {
        self.inner.insert(c.id, c)
    }

    /// Stops tracking the client under `id`, handing it back if it was known.
    pub fn remove(&mut self, id: Xid) -> (r: Option<Client>)
        requires
            old(self).wf(),
        ensures
            final(self).wf(),
            final(self)@ == old(self)@.remove(id),
            r == (if old(self)@.contains_key(id) {
                Some(old(self)@[id])
            } else {
                None::<Client>
            }),
    {
        self.inner.remove(&id)
    }

    /// The client under `id`, if it is known.
    pub fn get(&self, id: Xid) -> (r: Option<&Client>)
        ensures
            match r {
                Some(c) => self@.contains_key(id) && *c == self@[id],
                None => !self@.contains_key(id),
            },
    {
        self.inner.get(&id)
    }

    /// Whether a client is known under `id`.
    pub fn contains(&self, id: Xid) -> (r: bool)
        ensures
            r == self@.contains_key(id),
    {
        self.inner.contains_key(&id)
    }

    /// The known clients of the workspace, in its order; ids of the workspace that
    /// are not known are skipped.
    pub fn clients_for_workspace(&self, ws: &Workspace) -> (r: Vec<&Client>)
        ensures
            refs_match(r@, known_ids(ws.clients@, self@), self@),
    {
        let ids = ws.client_ids();
        let mut r: Vec<&Client> = Vec::new();
        let mut i: usize = 0;
        while i < ids.len()
            invariant
                ids@ == ws.clients@,
                i <= ids@.len(),
                refs_match(r@, known_ids(ids@.take(i as int), self@), self@),
            decreases ids@.len() - i,
        {
            proof {
                assert(ids@.take(i + 1).drop_last() =~= ids@.take(i as int));
                assert(ids@.take(i + 1).last() == ids@[i as int]);
            }
            match self.inner.get(&ids[i]) {
                Some(c) => {
                    proof {
                        lemma_refs_push(r@, known_ids(ids@.take(i as int), self@), self@, c, ids@[i as int]);
                    }
                    r.push(c);
                },
                None => {},
            }
            i = i + 1;
        }
        proof {
            assert(ids@.take(i as int) =~= ids@);
        }
        r
    }

    /// The known clients of the workspace split in two, each part in the
    /// workspace's order: first the floating clients, then the others. Ids of the
    /// workspace that are not known are skipped.
    pub fn partitioned_clients_for_workspace(&self, ws: &Workspace) -> (r: (
        Vec<&Client>,
        Vec<&Client>,
    ))
        ensures
            refs_match(r.0@, known_ids_floating(ws.clients@, self@, true), self@),
            refs_match(r.1@, known_ids_floating(ws.clients@, self@, false), self@),
    {
        let ids = ws.client_ids();
        let mut fl: Vec<&Client> = Vec::new();
        let mut tiled: Vec<&Client> = Vec::new();
        let mut i: usize = 0;
        while i < ids.len()
            invariant
                ids@ == ws.clients@,
                i <= ids@.len(),
                refs_match(fl@, known_ids_floating(ids@.take(i as int), self@, true), self@),
                refs_match(tiled@, known_ids_floating(ids@.take(i as int), self@, false), self@),
            decreases ids@.len() - i,
        {
            proof {
                assert(ids@.take(i + 1).drop_last() =~= ids@.take(i as int));
                assert(ids@.take(i + 1).last() == ids@[i as int]);
            }
            match self.inner.get(&ids[i]) {
                Some(c) => {
                    if c.floating {
                        proof {
                            lemma_refs_push(
                                fl@,
                                known_ids_floating(ids@.take(i as int), self@, true),
                                self@,
                                c,
                                ids@[i as int],
                            );
                        }
                        fl.push(c);
                    } else {
                        proof {
                            lemma_refs_push(
                                tiled@,
                                known_ids_floating(ids@.take(i as int), self@, false),
                                self@,
                                c,
                                ids@[i as int],
                            );
                        }
                        tiled.push(c);
                    }
                },
                None => {},
            }
            i = i + 1;
        }
        proof {
            assert(ids@.take(i as int) =~= ids@);
        }
        (fl, tiled)
    }
}

proof fn lemma_known_ids_members(ids: Seq<Xid>, m: Map<Xid, Client>)
    ensures
        forall|i: int|
            0 <= i < known_ids(ids, m).len() ==> ids.contains(#[trigger] known_ids(ids, m)[i])
                && m.contains_key(known_ids(ids, m)[i]),
        forall|id: Xid| ids.contains(id) && m.contains_key(id) ==> #[trigger] known_ids(ids, m).contains(id),
    decreases ids.len(),
{
    if ids.len() > 0 {
        let d = ids.drop_last();
        lemma_known_ids_members(d, m);
        assert forall|id: Xid| ids.contains(id) && m.contains_key(id) implies #[trigger] known_ids(
            ids,
            m,
        ).contains(id) by {
            let j = choose|j: int| 0 <= j < ids.len() && ids[j] == id;
            if j < ids.len() - 1 {
                assert(d[j] == id);
                assert(d.contains(id));
                assert(known_ids(d, m).contains(id));
                let k = choose|k: int| 0 <= k < known_ids(d, m).len() && known_ids(d, m)[k] == id;
                assert(known_ids(ids, m)[k] == id);
            } else {
                assert(known_ids(ids, m).last() == id);
            }
        }
        assert forall|i: int| 0 <= i < known_ids(ids, m).len() implies ids.contains(
            #[trigger] known_ids(ids, m)[i],
        ) && m.contains_key(known_ids(ids, m)[i]) by {
            if i < known_ids(d, m).len() {
                let x = known_ids(d, m)[i];
                assert(known_ids(ids, m)[i] == x);
                let j = choose|j: int| 0 <= j < d.len() && d[j] == x;
                assert(ids[j] == x);
            } else {
                assert(ids[ids.len() - 1] == ids.last());
            }
        }
    }
}

/// The clients that `clients_for_workspace` returns are clients of the workspace:
/// each is known, its id is among the workspace's ids, and it is the client held
/// under that id. Ids of the workspace that are not known are skipped, and every
/// known one is returned.
pub proof fn lemma_clients_for_workspace_sound(c: Clients, ws: Workspace)
    requires
        c.wf(),
    ensures
        forall|i: int|
            0 <= i < known_ids(ws.clients@, c@).len() ==> {
                let id = #[trigger] known_ids(ws.clients@, c@)[i];
                &&& ws.clients@.contains(id)
                &&& c@.contains_key(id)
                &&& lookup(known_ids(ws.clients@, c@), c@)[i].id == id
            },
        forall|id: Xid|
            ws.clients@.contains(id) && c@.contains_key(id) ==> #[trigger] known_ids(
                ws.clients@,
                c@,
            ).contains(id),
{
    lemma_known_ids_members(ws.clients@, c@);
}

} // verus!
