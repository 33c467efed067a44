//! Rectangles in screen coordinates and the ways layouts cut them up.
use vstd::prelude::*;
use vstd::arithmetic::div_mod::lemma_fundamental_div_mod;

use crate::error::Error;

verus! {

/// A rectangle: top left corner at (`x`, `y`), `w` wide and `h` high.
#[derive(Clone, Copy, Debug, PartialEq, Eq, Hash, Structural)]
pub struct Region {
    pub x: u32,
    pub y: u32,
    pub w: u32,
    pub h: u32,
}

/// Where the `i`th of `n` equal parts of a length `total` starts, relative to its start.
pub open spec fn part_offset(total: int, n: int, i: int) -> int {
    i * (total / n)
}

/// The size of the `i`th of `n` parts of a length `total`: `total / n` each, the last
/// one also taking the remainder, so that the parts add up to `total`.
pub open spec fn part_len(total: int, n: int, i: int) -> int {
    if i + 1 == n {
        total / n + total % n
    } else {
        total / n
    }
}

/// The sum of the heights of a sequence of regions.
pub open spec fn sum_heights(s: Seq<Region>) -> int
    decreases s.len(),
{
    if s.len() == 0 {
        0
    } else {
        sum_heights(s.drop_last()) + s.last().h
    }
}

/// The sum of the widths of a sequence of regions.
pub open spec fn sum_widths(s: Seq<Region>) -> int
    decreases s.len(),
{
    if s.len() == 0 {
        0
    } else {
        sum_widths(s.drop_last()) + s.last().w
    }
}

pub(crate) proof fn lemma_part_bounds(total: int, n: int, i: int)
    requires
        0 <= total,
        0 <= i < n,
    ensures
        0 <= part_offset(total, n, i),
        0 <= part_len(total, n, i),
        part_offset(total, n, i) + part_len(total, n, i) <= total,
        i + 1 == n ==> part_offset(total, n, i) + part_len(total, n, i) == total,
        i + 1 < n ==> part_offset(total, n, i) + part_len(total, n, i) == part_offset(
            total,
            n,
            i + 1,
        ),
{
    lemma_fundamental_div_mod(total, n);
    let q = total / n;
    assert(0 <= q) by (nonlinear_arith)
        requires
            0 <= total,
            0 < n,
            q == total / n,
    ;
    assert(0 <= total % n);
    assert(0 <= i * q) by (nonlinear_arith)
        requires
            0 <= i,
            0 <= q,
    ;
    assert(i * q + q == (i + 1) * q) by (nonlinear_arith);
    assert((i + 1) * q <= n * q) by (nonlinear_arith)
        requires
            i + 1 <= n,
            0 <= q,
    ;
}

proof fn lemma_sum_heights_prefix(r: Region, n: nat, k: nat)
    requires
        0 < n,
        k < n,
    ensures
        sum_heights(r.rows(n).take(k as int)) == part_offset(r.h as int, n as int, k as int),
    decreases k,
{
    if k > 0 {
        lemma_sum_heights_prefix(r, n, (k - 1) as nat);
        lemma_part_bounds(r.h as int, n as int, k - 1);
        assert(r.rows(n).take(k as int).drop_last() =~= r.rows(n).take(k - 1));
    }
}

proof fn lemma_sum_widths_prefix(r: Region, n: nat, k: nat)
    requires
        0 < n,
        k < n,
    ensures
        sum_widths(r.columns(n).take(k as int)) == part_offset(r.w as int, n as int, k as int),
    decreases k,
{
    if k > 0 {
        lemma_sum_widths_prefix(r, n, (k - 1) as nat);
        lemma_part_bounds(r.w as int, n as int, k - 1);
        assert(r.columns(n).take(k as int).drop_last() =~= r.columns(n).take(k - 1));
    }
}

/// Cutting a region into `n > 0` rows loses nothing: the heights of the rows add up
/// to the region's height and every row is as wide as the region. Likewise the
/// widths of `n` columns add up to the region's width, each as high as the region.
pub proof fn lemma_rows_and_columns_cover(r: Region, n: nat)
    requires
        0 < n,
    ensures
        sum_heights(r.rows(n)) == r.h,
        forall|i: int| 0 <= i < n ==> #[trigger] r.rows(n)[i].w == r.w,
        sum_widths(r.columns(n)) == r.w,
        forall|i: int| 0 <= i < n ==> #[trigger] r.columns(n)[i].h == r.h,
{
    let k = (n - 1) as nat;
    lemma_sum_heights_prefix(r, n, k);
    lemma_part_bounds(r.h as int, n as int, k as int);
    assert(r.rows(n).drop_last() =~= r.rows(n).take(k as int));
    lemma_sum_widths_prefix(r, n, k);
    lemma_part_bounds(r.w as int, n as int, k as int);
    assert(r.columns(n).drop_last() =~= r.columns(n).take(k as int));
}

/// Splitting a region at `x` within its width gives two parts whose widths add up
/// to the region's width, both as high as the region; a split past the width fails.
pub proof fn lemma_split_at_width_parts(r: Region, x: u32)
    requires
        r.fits(),
    ensures
        x <= r.w ==> (r.split_width_spec(x) matches Ok((a, b)) && a.w + b.w == r.w && a.h == r.h
            && b.h == r.h),
        x > r.w ==> r.split_width_spec(x) is Err,
{
}

impl Region {
    /// Whether the far edges of the region can be written as `u32` coordinates.
    pub open spec fn fits(self) -> bool {
        self.x + self.w <= u32::MAX && self.y + self.h <= u32::MAX
    }

    /// The `i`th of the `n` rows that `as_rows(n)` cuts this region into.
    pub open spec fn row(self, n: nat, i: nat) -> Region {
        Region {
            x: self.x,
            y: (self.y + part_offset(self.h as int, n as int, i as int)) as u32,
            w: self.w,
            h: part_len(self.h as int, n as int, i as int) as u32,
        }
    }

    /// The `i`th of the `n` columns that `as_columns(n)` cuts this region into.
    pub open spec fn column(self, n: nat, i: nat) -> Region {
        Region {
            x: (self.x + part_offset(self.w as int, n as int, i as int)) as u32,
            y: self.y,
            w: part_len(self.w as int, n as int, i as int) as u32,
            h: self.h,
        }
    }

    /// All `n` rows, top to bottom.
    pub open spec fn rows(self, n: nat) -> Seq<Region> {
        Seq::new(n, |i: int| self.row(n, i as nat))
    }

    /// All `n` columns, left to right.
    pub open spec fn columns(self, n: nat) -> Seq<Region> {
        Seq::new(n, |i: int| self.column(n, i as nat))
    }

    /// What `split_at_width(x)` returns.
    pub open spec fn split_width_spec(self, x: u32) -> Result<(Region, Region), Error> {
        if x <= self.w {
            Ok(
                (
                    Region { x: self.x, y: self.y, w: x, h: self.h },
                    Region { x: (self.x + x) as u32, y: self.y, w: (self.w - x) as u32, h: self.h },
                ),
            )
        } else {
            Err(Error::SplitOutOfBounds { at: x, extent: self.w })
        }
    }

    /// What `split_at_height(y)` returns.
    pub open spec fn split_height_spec(self, y: u32) -> Result<(Region, Region), Error> {
        if y <= self.h {
            Ok(
                (
                    Region { x: self.x, y: self.y, w: self.w, h: y },
                    Region { x: self.x, y: (self.y + y) as u32, w: self.w, h: (self.h - y) as u32 },
                ),
            )
        } else {
            Err(Error::SplitOutOfBounds { at: y, extent: self.h })
        }
    }

    pub fn new(x: u32, y: u32, w: u32, h: u32) -> (r: Region)
        ensures
            r == (Region { x, y, w, h }),
    {
        Region { x, y, w, h }
    }

    /// The four values `(x, y, w, h)`.
    pub fn values(&self) -> (r: (u32, u32, u32, u32))
        ensures
            r == (self.x, self.y, self.w, self.h),
    {
        (self.x, self.y, self.w, self.h)
    }

    /// Cuts the region into `n` rows of full width, stacked top to bottom. Each is
    /// `h / n` high; the last one also takes what the division leaves over. No rows
    /// for `n == 0`.
    pub fn as_rows(&self, n: u32) -> (rows: Vec<Region>)
        requires
            self.fits(),
        ensures
            rows@ == self.rows(n as nat),
    {
        let mut rows: Vec<Region> = Vec::new();
        if n == 0 {
            assert(rows@ =~= self.rows(0));
            return rows;
        }
        let q: u32 = self.h / n;
        let mut i: u32 = 0;
        while i < n
            invariant
                0 < n,
                q == self.h / n,
                i <= n,
                self.fits(),
                rows@.len() == i,
                forall|j: int| 0 <= j < i ==> rows@[j] == self.row(n as nat, j as nat),
            decreases n - i,
        {
            proof {
                lemma_part_bounds(self.h as int, n as int, i as int);
            }
            let h: u32 = if i == n - 1 {
                q + self.h % n
            } else {
                q
            };
            let off: u32 = i * q;
            rows.push(Region { x: self.x, y: self.y + off, w: self.w, h });
            i = i + 1;
        }
        assert(rows@ =~= self.rows(n as nat));
        rows
    }

    /// Cuts the region into `n` columns of full height, side by side from left to
    /// right. Each is `w / n` wide; the last one also takes what the division leaves
    /// over. No columns for `n == 0`.
    pub fn as_columns(&self, n: u32) -> (cols: Vec<Region>)
        requires
            self.fits(),
        ensures
            cols@ == self.columns(n as nat),
    {
        let mut cols: Vec<Region> = Vec::new();
        if n == 0 {
            assert(cols@ =~= self.columns(0));
            return cols;
        }
        let q: u32 = self.w / n;
        let mut i: u32 = 0;
        while i < n
            invariant
                0 < n,
                q == self.w / n,
                i <= n,
                self.fits(),
                cols@.len() == i,
                forall|j: int| 0 <= j < i ==> cols@[j] == self.column(n as nat, j as nat),
            decreases n - i,
        {
            proof {
                lemma_part_bounds(self.w as int, n as int, i as int);
            }
            let w: u32 = if i == n - 1 {
                q + self.w % n
            } else {
                q
            };
            let off: u32 = i * q;
            cols.push(Region { x: self.x + off, y: self.y, w, h: self.h });
            i = i + 1;
        }
        assert(cols@ =~= self.columns(n as nat));
        cols
    }

    /// Splits the region at `x` along its width: the left part spans `[0, x)` of it,
    /// the right part `[x, w)`. Fails when `x` lies beyond the width.
    pub fn split_at_width(&self, x: u32) -> (r: Result<(Region, Region), Error>)
        requires
            self.fits(),
        ensures
            r == self.split_width_spec(x),
    {
        if x > self.w {
            return Err(Error::SplitOutOfBounds { at: x, extent: self.w });
        }
        Ok(
            (
                Region { x: self.x, y: self.y, w: x, h: self.h },
                Region { x: self.x + x, y: self.y, w: self.w - x, h: self.h },
            ),
        )
    }

    /// Splits the region at `y` along its height: the upper part spans `[0, y)` of it,
    /// the lower part `[y, h)`. Fails when `y` lies beyond the height.
    pub fn split_at_height(&self, y: u32) -> (r: Result<(Region, Region), Error>)
        requires
            self.fits(),
        ensures
            r == self.split_height_spec(y),
    {
        if y > self.h {
            return Err(Error::SplitOutOfBounds { at: y, extent: self.h });
        }
        Ok(
            (
                Region { x: self.x, y: self.y, w: self.w, h: y },
                Region { x: self.x, y: self.y + y, w: self.w, h: self.h - y },
            ),
        )
    }
}

} // verus!
