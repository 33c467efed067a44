//! Tiling layouts: pure functions from the clients of a workspace and the region
//! they may use to where each of them goes.
use vstd::prelude::*;

use crate::client::Client;
use crate::region::{
    lemma_part_bounds, lemma_rows_and_columns_cover, part_len, part_offset, sum_heights, sum_widths,
    Region,
};
use crate::Xid;

verus! {

/// Where a layout puts a client: `Some(region)` to show it there, `None` to hide it.
pub type ResizeAction = (Xid, Option<Region>);

/// The share `num / den` of a length that the main area of a layout takes.
#[derive(Clone, Copy, Debug, PartialEq, Eq, Structural)]
pub struct Ratio {
    pub num: u32,
    pub den: u32,
}

proof fn lemma_share_bounds(ratio: Ratio, len: u32)
    requires
        ratio.wf(),
    ensures
        0 <= ratio.share(len) <= len,
{
    let l = len as int;
    let n = ratio.num as int;
    let d = ratio.den as int;
    let p = l * n;
    assert(0 <= p <= l * d) by (nonlinear_arith)
        requires
            0 <= l,
            0 <= n <= d,
            p == l * n,
    ;
    vstd::arithmetic::div_mod::lemma_fundamental_div_mod(p, d);
    let q = p / d;
    let rem = p % d;
    assert(0 <= q <= l) by (nonlinear_arith)
        requires
            p == d * q + rem,
            0 <= rem < d,
            0 <= p <= l * d,
            0 < d,
    ;
    assert(q == l ==> rem == 0) by (nonlinear_arith)
        requires
            p == d * q + rem,
            0 <= rem,
            p <= l * d,
            0 < d,
    ;
}

impl Ratio {
    /// A ratio is well formed when it lies in `[0, 1]`.
    pub open spec fn wf(self) -> bool {
        0 < self.den && self.num <= self.den
    }

    /// `len * num / den`, rounded to the nearest integer, halves rounded up.
    pub open spec fn share(self, len: u32) -> int {
        let p = len * self.num;
        p / (self.den as int) + if 2 * (p % (self.den as int)) >= self.den {
            1int
        } else {
            0int
        }
    }

    /// The share of `len` that this ratio gives: `len * num / den`, rounded to the
    /// nearest integer.
    pub fn share_of(&self, len: u32) -> (r: u32)
        requires
            self.wf(),
        ensures
            r == self.share(len),
            r <= len,
    {
        let a: u64 = len as u64;
        let b: u64 = self.num as u64;
        assert(a * b <= u32::MAX * u32::MAX) by (nonlinear_arith)
            requires
                a <= u32::MAX,
                b <= u32::MAX,
        ;
        let p: u64 = a * b;
        let d: u64 = self.den as u64;
        let q: u64 = p / d;
        let rem: u64 = p % d;
        proof {
            lemma_share_bounds(*self, len);
        }
        if 2 * rem >= d {
            (q + 1) as u32
        } else {
            q as u32
        }
    }
}

/// The ids of the clients, in order.
pub open spec fn ids(clients: Seq<&Client>) -> Seq<Xid> {
    Seq::new(clients.len(), |i: int| clients[i].id)
}

/// Each client shown in the region of the same position.
pub open spec fn placed(clients: Seq<&Client>, regions: Seq<Region>) -> Seq<ResizeAction> {
    Seq::new(clients.len(), |i: int| (clients[i].id, Some(regions[i])))
}

/// The regions that `side_stack` gives `n` clients: `n` rows of the whole region
/// when they all fit in the main area (or `max_main` is zero); else `max_main` rows
/// of a main area on the left, as wide as `ratio` of the region, and the others in
/// rows of the stack area to its right.
pub open spec fn side_stack_regions(r: Region, n: nat, max_main: u32, ratio: Ratio) -> Seq<Region> {
    if n <= max_main || max_main == 0 {
        r.rows(n)
    } else {
        let split = ratio.share(r.w);
        let main = Region { x: r.x, y: r.y, w: split as u32, h: r.h };
        let stack = Region { x: (r.x + split) as u32, y: r.y, w: (r.w - split) as u32, h: r.h };
        main.rows(max_main as nat) + stack.rows((n - max_main) as nat)
    }
}

/// The regions that `bottom_stack` gives `n` clients: `n` columns of the whole
/// region when they all fit in the main area (or `max_main` is zero); else
/// `max_main` columns of a main area at the top, as high as `ratio` of the region,
/// and the others in columns of the stack area below it.
pub open spec fn bottom_stack_regions(r: Region, n: nat, max_main: u32, ratio: Ratio) -> Seq<
    Region,
> {
    if n <= max_main || max_main == 0 {
        r.columns(n)
    } else {
        let split = ratio.share(r.h);
        let main = Region { x: r.x, y: r.y, w: r.w, h: split as u32 };
        let stack = Region { x: r.x, y: (r.y + split) as u32, w: r.w, h: (r.h - split) as u32 };
        main.columns(max_main as nat) + stack.columns((n - max_main) as nat)
    }
}

/// What `monocle` returns: nothing without a focused client; else the focused
/// client in the whole region and every other client hidden.
pub open spec fn monocle_actions(clients: Seq<&Client>, focused: Option<Xid>, r: Region) -> Seq<
    ResizeAction,
> {
    match focused {
        None => Seq::empty(),
        Some(fid) => Seq::new(
            clients.len(),
            |i: int|
                (clients[i].id, if clients[i].id == fid {
                    Some(r)
                } else {
                    None
                }),
        ),
    }
}

/// When all clients fit in the main area (or `max_main` is zero), `side_stack`
/// shows every client, in input order, in rows that fill the region without a gap:
/// each row is as wide as the region, the first starts at its top, each next one
/// where the one before ends, and the last ends at its bottom. `bottom_stack` does
/// the same with columns, from left to right.
pub proof fn lemma_stacks_fill_region(
    clients: Seq<&Client>,
    region: Region,
    max_main: u32,
    ratio: Ratio,
)
    requires
        region.fits(),
        clients.len() <= max_main || max_main == 0,
        0 < clients.len(),
    ensures
        ({
            let c = clients.len();
            let rs = side_stack_regions(region, c, max_main, ratio);
            let side = placed(clients, rs);
            &&& side.len() == c
            &&& forall|i: int| 0 <= i < c ==> #[trigger] side[i] == (clients[i].id, Some(rs[i]))
            &&& forall|i: int| 0 <= i < c ==> #[trigger] rs[i].x == region.x && rs[i].w == region.w
            &&& rs[0].y == region.y
            &&& forall|i: int| 0 <= i < c - 1 ==> #[trigger] rs[i].y + rs[i].h == rs[i + 1].y
            &&& rs[c - 1].y + rs[c - 1].h == region.y + region.h
        }),
        ({
            let c = clients.len();
            let cs = bottom_stack_regions(region, c, max_main, ratio);
            let bottom = placed(clients, cs);
            &&& bottom.len() == c
            &&& forall|i: int| 0 <= i < c ==> #[trigger] bottom[i] == (clients[i].id, Some(cs[i]))
            &&& forall|i: int| 0 <= i < c ==> #[trigger] cs[i].y == region.y && cs[i].h == region.h
            &&& cs[0].x == region.x
            &&& forall|i: int| 0 <= i < c - 1 ==> #[trigger] cs[i].x + cs[i].w == cs[i + 1].x
            &&& cs[c - 1].x + cs[c - 1].w == region.x + region.w
        }),
{
    let c = clients.len();
    let rs = side_stack_regions(region, c, max_main, ratio);
    let cs = bottom_stack_regions(region, c, max_main, ratio);
    assert forall|i: int| 0 <= i < c implies #[trigger] rs[i].x == region.x && rs[i].w == region.w
        && cs[i].y == region.y && cs[i].h == region.h by {
        lemma_part_bounds(region.h as int, c as int, i);
        lemma_part_bounds(region.w as int, c as int, i);
    }
    lemma_part_bounds(region.h as int, c as int, 0);
    lemma_part_bounds(region.w as int, c as int, 0);
    assert(rs[0].y == region.y);
    assert(cs[0].x == region.x);
    assert forall|i: int| 0 <= i < c - 1 implies #[trigger] rs[i].y + rs[i].h == rs[i + 1].y by {
        lemma_part_bounds(region.h as int, c as int, i);
        lemma_part_bounds(region.h as int, c as int, i + 1);
    }
    assert forall|i: int| 0 <= i < c - 1 implies #[trigger] cs[i].x + cs[i].w == cs[i + 1].x by {
        lemma_part_bounds(region.w as int, c as int, i);
        lemma_part_bounds(region.w as int, c as int, i + 1);
    }
    lemma_part_bounds(region.h as int, c as int, c - 1);
    lemma_part_bounds(region.w as int, c as int, c - 1);
}

/// When there are more clients than the main area holds, `side_stack` cuts the
/// region at `ratio` of its width into a main area on the left and a stack area
/// on the right: the two widths add up to the region's width, the first
/// `max_main` rows fill the main area (heights adding up to the region's height,
/// each as wide as the area) and the other rows fill the stack area likewise.
/// `bottom_stack` does the same with a cut across the height and columns.
pub proof fn lemma_stacks_split_region(region: Region, n: nat, max_main: u32, ratio: Ratio)
    requires
        region.fits(),
        ratio.wf(),
        0 < max_main < n,
    ensures
        ({
            let m = max_main as int;
            let split = ratio.share(region.w);
            let rs = side_stack_regions(region, n, max_main, ratio);
            &&& 0 <= split <= region.w
            &&& rs.len() == n
            &&& sum_heights(rs.take(m)) == region.h
            &&& sum_heights(rs.skip(m)) == region.h
            &&& forall|i: int| 0 <= i < m ==> (#[trigger] rs[i]).x == region.x && rs[i].w == split
            &&& forall|i: int|
                m <= i < n ==> (#[trigger] rs[i]).x == region.x + split && rs[i].w == region.w
                    - split
        }),
        ({
            let m = max_main as int;
            let split = ratio.share(region.h);
            let cs = bottom_stack_regions(region, n, max_main, ratio);
            &&& 0 <= split <= region.h
            &&& cs.len() == n
            &&& sum_widths(cs.take(m)) == region.w
            &&& sum_widths(cs.skip(m)) == region.w
            &&& forall|i: int| 0 <= i < m ==> (#[trigger] cs[i]).y == region.y && cs[i].h == split
            &&& forall|i: int|
                m <= i < n ==> (#[trigger] cs[i]).y == region.y + split && cs[i].h == region.h
                    - split
        }),
{
    let m = max_main as nat;
    let k = (n - m) as nat;
    lemma_share_bounds(ratio, region.w);
    lemma_share_bounds(ratio, region.h);
    let sw = ratio.share(region.w);
    let main = Region { x: region.x, y: region.y, w: sw as u32, h: region.h };
    let stack = Region { x: (region.x + sw) as u32, y: region.y, w: (region.w - sw) as u32, h: region.h };
    let rs = side_stack_regions(region, n, max_main, ratio);
    assert(rs == main.rows(m) + stack.rows(k));
    assert(rs.take(m as int) =~= main.rows(m));
    assert(rs.skip(m as int) =~= stack.rows(k));
    lemma_rows_and_columns_cover(main, m);
    lemma_rows_and_columns_cover(stack, k);
    assert forall|i: int| 0 <= i < m implies (#[trigger] rs[i]).x == region.x && rs[i].w == sw by {
        assert(rs[i] == main.rows(m)[i]);
    }
    assert forall|i: int| m <= i < n implies (#[trigger] rs[i]).x == region.x + sw && rs[i].w
        == region.w - sw by {
        assert(rs[i] == stack.rows(k)[i - m]);
    }
    let sh = ratio.share(region.h);
    let cmain = Region { x: region.x, y: region.y, w: region.w, h: sh as u32 };
    let cstack = Region { x: region.x, y: (region.y + sh) as u32, w: region.w, h: (region.h - sh) as u32 };
    let cs = bottom_stack_regions(region, n, max_main, ratio);
    assert(cs == cmain.columns(m) + cstack.columns(k));
    assert(cs.take(m as int) =~= cmain.columns(m));
    assert(cs.skip(m as int) =~= cstack.columns(k));
    lemma_rows_and_columns_cover(cmain, m);
    lemma_rows_and_columns_cover(cstack, k);
    assert forall|i: int| 0 <= i < m implies (#[trigger] cs[i]).y == region.y && cs[i].h == sh by {
        assert(cs[i] == cmain.columns(m)[i]);
    }
    assert forall|i: int| m <= i < n implies (#[trigger] cs[i]).y == region.y + sh && cs[i].h
        == region.h - sh by {
        assert(cs[i] == cstack.columns(k)[i - m]);
    }
}

/// `monocle` places nothing without a focused client. With a focused client that
/// is among `c` distinct clients it gives `c` actions: the focused client takes
/// the whole region, and the `c - 1` others are hidden.
pub proof fn lemma_monocle_shows_focused_only(
    clients: Seq<&Client>,
    focused: Option<Xid>,
    region: Region,
)
    requires
        ids(clients).no_duplicates(),
    ensures
        focused is None ==> monocle_actions(clients, focused, region).len() == 0,
        focused is Some && ids(clients).contains(focused.unwrap()) ==> {
            let fid = focused.unwrap();
            let a = monocle_actions(clients, focused, region);
            let k = ids(clients).index_of(fid);
            &&& a.len() == clients.len()
            &&& 0 <= k < clients.len()
            &&& a[k] == (fid, Some(region))
            &&& forall|i: int| 0 <= i < clients.len() && i != k ==> (#[trigger] a[i]).1 is None
        },
{
    if let Some(fid) = focused {
        if ids(clients).contains(fid) {
            let a = monocle_actions(clients, focused, region);
            let k = ids(clients).index_of(fid);
            assert forall|i: int| 0 <= i < clients.len() && i != k implies (#[trigger] a[i]).1 is None by {
                assert(ids(clients)[i] == clients[i].id);
                assert(ids(clients)[k] == fid);
            }
        }
    }
}

/// Shows each client in the region at its position.
fn place(clients: &[&Client], regions: &Vec<Region>) -> (r: Vec<ResizeAction>)
    requires
        regions@.len() == clients@.len(),
    ensures
        r@ == placed(clients@, regions@),
{
    let mut r: Vec<ResizeAction> = Vec::new();
    let mut i: usize = 0;
    while i < clients.len()
        invariant
            regions@.len() == clients@.len(),
            i <= clients@.len(),
            r@.len() == i,
            forall|j: int| 0 <= j < i ==> r@[j] == (clients@[j].id, Some(regions@[j])),
        decreases clients@.len() - i,
    {
        r.push((clients[i].id(), Some(regions[i])));
        i = i + 1;
    }
    assert(r@ =~= placed(clients@, regions@));
    r
}

/// Leaves every client where it is: floating clients are not tiled.
pub fn floating(
    _clients: &[&Client],
    _focused: Option<Xid>,
    _region: &Region,
    _max_main: u32,
    _ratio: Ratio,
) -> (r: Vec<ResizeAction>)
    ensures
        r@.len() == 0,
{
    Vec::new()
}

/// The main area on the left, as wide as `ratio` of the region, holding up to
/// `max_main` clients in rows; the other clients in rows in the stack area to its
/// right.
pub fn side_stack(
    clients: &[&Client],
    _focused: Option<Xid>,
    region: &Region,
    max_main: u32,
    ratio: Ratio,
) -> (r: Vec<ResizeAction>)
    requires
        region.fits(),
        ratio.wf(),
        clients@.len() <= u32::MAX,
    ensures
        r@ == placed(clients@, side_stack_regions(*region, clients@.len(), max_main, ratio)),
{
    let n: u32 = clients.len() as u32;
    if n <= max_main || max_main == 0 {
        let rows = region.as_rows(n);
        return place(clients, &rows);
    }
    let split = ratio.share_of(region.w);
    let main = Region { x: region.x, y: region.y, w: split, h: region.h };
    let stack = Region { x: region.x + split, y: region.y, w: region.w - split, h: region.h };
    let mut rows = main.as_rows(max_main);
    let mut rest = stack.as_rows(n - max_main);
    rows.append(&mut rest);
    place(clients, &rows)
}

/// The main area at the top, as high as `ratio` of the region, holding up to
/// `max_main` clients in columns; the other clients in columns in the stack area
/// below it.
pub fn bottom_stack(
    clients: &[&Client],
    _focused: Option<Xid>,
    region: &Region,
    max_main: u32,
    ratio: Ratio,
) -> (r: Vec<ResizeAction>)
    requires
        region.fits(),
        ratio.wf(),
        clients@.len() <= u32::MAX,
    ensures
        r@ == placed(clients@, bottom_stack_regions(*region, clients@.len(), max_main, ratio)),
{
    let n: u32 = clients.len() as u32;
    if n <= max_main || max_main == 0 {
        let cols = region.as_columns(n);
        return place(clients, &cols);
    }
    let split = ratio.share_of(region.h);
    let main = Region { x: region.x, y: region.y, w: region.w, h: split };
    let stack = Region { x: region.x, y: region.y + split, w: region.w, h: region.h - split };
    let mut cols = main.as_columns(max_main);
    let mut rest = stack.as_columns(n - max_main);
    cols.append(&mut rest);
    place(clients, &cols)
}

/// The focused client takes the whole region and every other client is hidden;
/// without a focused client nothing is placed.
pub fn monocle(
    clients: &[&Client],
    focused: Option<Xid>,
    region: &Region,
    _max_main: u32,
    _ratio: Ratio,
) -> (r: Vec<ResizeAction>)
    ensures
        r@ == monocle_actions(clients@, focused, *region),
{
    match focused {
        None => Vec::new(),
        Some(fid) => {
            let mut r: Vec<ResizeAction> = Vec::new();
            let mut i: usize = 0;
            while i < clients.len()
                invariant
                    focused == Some(fid),
                    i <= clients@.len(),
                    r@.len() == i,
                    forall|j: int|
                        0 <= j < i ==> r@[j] == monocle_actions(clients@, focused, *region)[j],
                decreases clients@.len() - i,
            {
                let cid = clients[i].id();
                if cid == fid {
                    r.push((cid, Some(*region)));
                } else {
                    r.push((cid, None));
                }
                i = i + 1;
            }
            assert(r@ =~= monocle_actions(clients@, focused, *region));
            r
        },
    }
}

/// The layout functions that a workspace can select.
#[derive(Clone, Copy, Debug, PartialEq, Eq, Structural)]
pub enum LayoutKind {
    Floating,
    SideStack,
    BottomStack,
    Monocle,
}

/// A layout function and its parameters.
#[derive(Clone, Copy, Debug, PartialEq, Eq, Structural)]
pub struct Layout {
    pub kind: LayoutKind,
    /// How many clients the main area holds.
    pub max_main: u32,
    /// The share of the region that the main area takes.
    pub ratio: Ratio,
}

/// What the layout function that `layout` selects returns.
pub open spec fn layout_actions(
    layout: Layout,
    clients: Seq<&Client>,
    focused: Option<Xid>,
    region: Region,
) -> Seq<ResizeAction> {
    match layout.kind {
        LayoutKind::Floating => Seq::empty(),
        LayoutKind::SideStack => placed(
            clients,
            side_stack_regions(region, clients.len(), layout.max_main, layout.ratio),
        ),
        LayoutKind::BottomStack => placed(
            clients,
            bottom_stack_regions(region, clients.len(), layout.max_main, layout.ratio),
        ),
        LayoutKind::Monocle => monocle_actions(clients, focused, region),
    }
}

/// Runs the layout function that `layout` selects, with its parameters.
pub fn run_layout(layout: &Layout, clients: &[&Client], focused: Option<Xid>, region: &Region) -> (r:
    Vec<ResizeAction>)
    requires
        region.fits(),
        layout.ratio.wf(),
        clients@.len() <= u32::MAX,
    ensures
        r@ == layout_actions(*layout, clients@, focused, *region),
{
    match layout.kind {
        LayoutKind::Floating => floating(clients, focused, region, layout.max_main, layout.ratio),
        LayoutKind::SideStack => side_stack(clients, focused, region, layout.max_main, layout.ratio),
        LayoutKind::BottomStack => bottom_stack(
            clients,
            focused,
            region,
            layout.max_main,
            layout.ratio,
        ),
        LayoutKind::Monocle => monocle(clients, focused, region, layout.max_main, layout.ratio),
    }
}

} // verus!
