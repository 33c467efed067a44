//! The physical screens, the workspace each one shows, and how both are brought
//! in line with the screens that the display server reports.
use vstd::prelude::*;

use crate::region::Region;

verus! {

/// Named points at which the runtime runs user hooks.
#[derive(Clone, Copy, Debug, PartialEq, Eq, Structural)]
pub enum HookName {
    /// The set of known screens changed.
    ScreenUpdated,
}

/// Work that the runtime does after a change of state.
#[derive(Clone, Copy, Debug, PartialEq, Eq, Structural)]
pub enum EventAction {
    /// Lay out every workspace that is on a screen.
    LayoutVisible,
    /// Run the hooks registered under the name.
    RunHook(HookName),
}

/// The workspace indices below `w` that no slot holds yet, in ascending order.
pub open spec fn free_indices(slots: Seq<usize>, w: nat) -> Seq<usize>
    decreases w,
{
    if w == 0 {
        Seq::empty()
    } else {
        let below = free_indices(slots, (w - 1) as nat);
        if slots.contains((w - 1) as usize) {
            below
        } else {
            below.push((w - 1) as usize)
        }
    }
}

/// The slots for `n` screens: the first `n` when there are more; else the slots
/// followed by the lowest workspace indices below `n_workspaces` that no slot
/// holds, up to `n` slots in all or until there are none left.
pub open spec fn slots_for(slots: Seq<usize>, n: nat, n_workspaces: nat) -> Seq<usize> {
    if n <= slots.len() {
        slots.take(n as int)
    } else {
        let free = free_indices(slots, n_workspaces);
        let need = n - slots.len();
        if free.len() <= need {
            slots + free
        } else {
            slots + free.take(need)
        }
    }
}

proof fn lemma_free_indices_prefix(slots: Seq<usize>, a: nat, b: nat)
    requires
        a <= b,
    ensures
        free_indices(slots, a).len() <= free_indices(slots, b).len(),
        free_indices(slots, a) == free_indices(slots, b).take(free_indices(slots, a).len() as int),
    decreases b,
{
    if a < b {
        lemma_free_indices_prefix(slots, a, (b - 1) as nat);
        let s = free_indices(slots, (b - 1) as nat);
        let k = free_indices(slots, a).len() as int;
        if !slots.contains((b - 1) as usize) {
            assert(s.push((b - 1) as usize).take(k) =~= s.take(k));
        }
    } else {
        assert(free_indices(slots, b).take(free_indices(slots, a).len() as int) =~= free_indices(
            slots,
            b,
        ));
    }
}

/// What is left of the screen region `s` for tiling once a bar `bar` high is
/// taken off its top (`top_bar`) or its bottom.
pub open spec fn without_bar(s: Region, bar: u32, top_bar: bool) -> Region {
    if top_bar {
        Region { x: s.x, y: (s.y + bar) as u32, w: s.w, h: (s.h - bar) as u32 }
    } else {
        Region { x: s.x, y: s.y, w: s.w, h: (s.h - bar) as u32 }
    }
}

proof fn lemma_free_indices_members(slots: Seq<usize>, w: nat)
    requires
        w <= usize::MAX,
    ensures
        forall|i: int|
            0 <= i < free_indices(slots, w).len() ==> #[trigger] free_indices(slots, w)[i] < w
                && !slots.contains(free_indices(slots, w)[i]),
        free_indices(slots, w).no_duplicates(),
    decreases w,
{
    if w > 0 {
        let below = free_indices(slots, (w - 1) as nat);
        lemma_free_indices_members(slots, (w - 1) as nat);
        let x = (w - 1) as usize;
        if !slots.contains(x) {
            let s = below.push(x);
            assert forall|a: int, b: int| 0 <= a < b < s.len() implies s[a] != s[b] by {
                if b == s.len() - 1 {
                    assert(s[a] == below[a] && below[a] < w - 1);
                } else {
                    assert(s[a] == below[a] && s[b] == below[b]);
                }
            }
            assert forall|i: int| 0 <= i < s.len() implies #[trigger] s[i] < w && !slots.contains(s[i]) by {
                if i < below.len() {
                    assert(s[i] == below[i]);
                }
            }
        }
    }
}

/// Reconciling screens keeps the workspace slots valid: when every slot names one
/// of `n_workspaces` workspaces and no workspace is on two screens, the same holds
/// of the slots afterwards, there is at most one slot per screen, and there are as
/// many slots as screens unless the workspaces ran out.
pub proof fn lemma_slots_stay_valid(slots: Seq<usize>, n: nat, n_workspaces: nat)
    requires
        n_workspaces <= usize::MAX,
        slots.no_duplicates(),
        forall|i: int| 0 <= i < slots.len() ==> #[trigger] slots[i] < n_workspaces,
    ensures
        ({
            let r = slots_for(slots, n, n_workspaces);
            &&& r.no_duplicates()
            &&& forall|i: int| 0 <= i < r.len() ==> #[trigger] r[i] < n_workspaces
            &&& r.len() <= n
            &&& r.len() < n ==> r.len() == slots.len() + free_indices(slots, n_workspaces).len()
        }),
{
    let r = slots_for(slots, n, n_workspaces);
    if n <= slots.len() {
        assert forall|a: int, b: int| 0 <= a < b < r.len() implies r[a] != r[b] by {
            assert(r[a] == slots[a] && r[b] == slots[b]);
        }
        assert forall|i: int| 0 <= i < r.len() implies #[trigger] r[i] < n_workspaces by {
            assert(r[i] == slots[i]);
        }
    } else {
        let free = free_indices(slots, n_workspaces);
        lemma_free_indices_members(slots, n_workspaces);
        let need = n - slots.len();
        let f = if free.len() <= need {
            free
        } else {
            free.take(need as int)
        };
        assert(r == slots + f);
        assert forall|i: int| 0 <= i < f.len() implies #[trigger] f[i] < n_workspaces && !slots.contains(f[i]) by {
            assert(f[i] == free[i]);
        }
        assert forall|a: int, b: int| 0 <= a < b < r.len() implies r[a] != r[b] by {
            if b < slots.len() {
                assert(r[a] == slots[a] && r[b] == slots[b]);
            } else if a < slots.len() {
                assert(r[a] == slots[a] && r[b] == f[b - slots.len()]);
                assert(slots.contains(r[a]));
            } else {
                assert(r[a] == free[a - slots.len()] && r[b] == free[b - slots.len()]);
            }
        }
        assert forall|i: int| 0 <= i < r.len() implies #[trigger] r[i] < n_workspaces by {
            if i < slots.len() {
                assert(r[i] == slots[i]);
            } else {
                assert(r[i] == f[i - slots.len()]);
            }
        }
    }
}

/// The known screens: the region of each, the workspace index that each shows,
/// and which screen has the focus.
#[derive(Clone, Debug)]
pub struct Screens {
    pub focused: usize,
    pub workspace_indices: Vec<usize>,
    pub regions: Vec<Region>,
}

/// Whether `v` holds `x`.
fn holds(v: &Vec<usize>, x: usize) -> (r: bool)
    ensures
        r == v@.contains(x),
{
    let mut i: usize = 0;
    while i < v.len()
        invariant
            i <= v@.len(),
            forall|j: int| 0 <= j < i ==> v@[j] != x,
        decreases v@.len() - i,
    {
        if v[i] == x {
            return true;
        }
        i = i + 1;
    }
    false
}

/// Whether two lists of regions are equal.
fn regions_equal(a: &Vec<Region>, b: &Vec<Region>) -> (r: bool)
    ensures
        r == (a@ == b@),
{
    if a.len() != b.len() {
        return false;
    }
    let mut i: usize = 0;
    while i < a.len()
        invariant
            a@.len() == b@.len(),
            i <= a@.len(),
            forall|j: int| 0 <= j < i ==> a@[j] == b@[j],
        decreases a@.len() - i,
    {
        if a[i] != b[i] {
            return false;
        }
        i = i + 1;
    }
    assert(a@ =~= b@);
    true
}

impl Screens {
    /// No screen shows a workspace that is not there.
    pub open spec fn wf(&self) -> bool {
        self.workspace_indices@.len() <= self.regions@.len()
    }

    /// No screens yet.
    pub fn new() -> (s: Screens)
        ensures
            s.wf(),
            s.focused == 0,
            s.workspace_indices@.len() == 0,
            s.regions@.len() == 0,
    {
        Screens { focused: 0, workspace_indices: Vec::new(), regions: Vec::new() }
    }

    /// The number of known screens.
    pub fn len(&self) -> (r: usize)
        ensures
            r == self.regions@.len(),
    {
        self.regions.len()
    }

    /// The first screen that shows workspace `wix`, with its region.
    pub fn indexed_screen_for_workspace(&self, wix: usize) -> (r: Option<(usize, Region)>)
        requires
            self.wf(),
        ensures
            match r {
                Some((i, reg)) => {
                    &&& i < self.workspace_indices@.len()
                    &&& self.workspace_indices@[i as int] == wix
                    &&& forall|j: int| 0 <= j < i ==> self.workspace_indices@[j] != wix
                    &&& reg == self.regions@[i as int]
                },
                None => !self.workspace_indices@.contains(wix),
            },
    {
        let mut i: usize = 0;
        while i < self.workspace_indices.len()
            invariant
                self.wf(),
                i <= self.workspace_indices@.len(),
                forall|j: int| 0 <= j < i ==> self.workspace_indices@[j] != wix,
            decreases self.workspace_indices@.len() - i,
        {
            if self.workspace_indices[i] == wix {
                return Some((i, self.regions[i]));
            }
            i = i + 1;
        }
        None
    }

    /// The part of screen `ix` left for tiling once a bar `bar_height` high is
    /// taken off its top (`top_bar`) or its bottom.
    pub fn effective_region(&self, ix: usize, bar_height: u32, top_bar: bool) -> (r: Region)
        requires
            ix < self.regions@.len(),
            bar_height <= self.regions@[ix as int].h,
            self.regions@[ix as int].fits(),
        ensures
            r == without_bar(self.regions@[ix as int], bar_height, top_bar),
            r.fits(),
    {
        let (x, y, w, h) = self.regions[ix].values();
        if top_bar {
            Region::new(x, y + bar_height, w, h - bar_height)
        } else {
            Region::new(x, y, w, h - bar_height)
        }
    }

    /// Brings the known screens in line with `detected`, the screens that the
    /// display server reports now. When nothing changed, nothing is done and no
    /// work follows. Else the regions become `detected` and the workspace slots
    /// follow `slots_for`: cut to the new number of screens, or filled up with the
    /// lowest free workspace indices below `n_workspaces`; then every visible
    /// workspace is to be laid out again and the screen hooks run.
    pub fn update_known_screens(&mut self, detected: Vec<Region>, n_workspaces: usize) -> (r: Vec<
        EventAction,
    >)
        requires
            old(self).wf(),
        ensures
            final(self).wf(),
            final(self).focused == old(self).focused,
            old(self).regions@ == detected@ ==> {
                &&& r@.len() == 0
                &&& final(self).regions@ == old(self).regions@
                &&& final(self).workspace_indices@ == old(self).workspace_indices@
            },
            old(self).regions@ != detected@ ==> {
                &&& r@ == seq![EventAction::LayoutVisible, EventAction::RunHook(HookName::ScreenUpdated)]
                &&& final(self).regions@ == detected@
                &&& final(self).workspace_indices@ == slots_for(
                    old(self).workspace_indices@,
                    detected@.len(),
                    n_workspaces as nat,
                )
            },
    {
        if regions_equal(&self.regions, &detected) {
            return Vec::new();
        }
        self.regions = detected;
        let n = self.regions.len();
        let m = self.workspace_indices.len();
        if n < m {
            self.workspace_indices.truncate(n);
        } else if n > m {
            let need = n - m;
            let ghost slots = self.workspace_indices@;
            let mut free: Vec<usize> = Vec::new();
            let mut w: usize = 0;
            while w < n_workspaces && free.len() < need
                invariant
                    self.workspace_indices@ == slots,
                    w <= n_workspaces,
                    free@ == free_indices(slots, w as nat),
                    free@.len() <= need,
                decreases n_workspaces - w,
            {
                if !holds(&self.workspace_indices, w) {
                    free.push(w);
                }
                w = w + 1;
            }
            proof {
                lemma_free_indices_prefix(slots, w as nat, n_workspaces as nat);
                let all = free_indices(slots, n_workspaces as nat);
                if free@.len() < need {
                    assert(w == n_workspaces);
                } else {
                    assert(all.len() >= need);
                }
            }
            self.workspace_indices.append(&mut free);
        }
        let mut r: Vec<EventAction> = Vec::new();
        r.push(EventAction::LayoutVisible);
        r.push(EventAction::RunHook(HookName::ScreenUpdated));
        r
    }
}

} // verus!
