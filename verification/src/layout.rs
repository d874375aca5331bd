//! Grid layout engine: computes the canvas dimensions and the per-tile
//! placement offsets from an item count, a row width, and a header band
//! reserved at the top of the canvas.

use vstd::prelude::*;
use vstd::arithmetic::div_mod::{lemma_fundamental_div_mod, lemma_mod_division_less_than_divisor};
use vstd::arithmetic::mul::{lemma_mul_inequality, lemma_mul_is_distributive_add_other_way};

verus! {

/// The canonical square tile edge, in pixels.
pub const TILE_SIZE: u32 = 128;

/// Ceiling division for non-negative `a` and positive `b`.
pub open spec fn spec_div_ceil(a: int, b: int) -> int
    recommends
        a >= 0,
        b >= 1,
{
    (a + b - 1) / b
}

/// Smallest `s <= r` with `s * s >= n`, assuming `r * r >= n`.
pub open spec fn ceil_sqrt_from(n: int, r: nat) -> int
    decreases r,
{
    if r == 0 {
        0
    } else if (r - 1) * (r - 1) >= n {
        ceil_sqrt_from(n, (r - 1) as nat)
    } else {
        r as int
    }
}

/// The ceiling of the square root of `n`, for `n` in `u32` range.
pub open spec fn spec_ceil_sqrt(n: int) -> int
    recommends
        0 <= n <= u32::MAX,
{
    ceil_sqrt_from(n, 65536)
}

/// `ceil_sqrt_from` finds the least value whose square reaches `n`.
proof fn lemma_ceil_sqrt_from(n: int, r: nat)
    requires
        0 <= n,
        r * r >= n,
    ensures
        0 <= ceil_sqrt_from(n, r) <= r,
        ceil_sqrt_from(n, r) * ceil_sqrt_from(n, r) >= n,
        ceil_sqrt_from(n, r) > 0 ==> (ceil_sqrt_from(n, r) - 1) * (ceil_sqrt_from(n, r) - 1) < n,
    decreases r,
{
    if r == 0 {
    } else if (r - 1) * (r - 1) >= n {
        lemma_ceil_sqrt_from(n, (r - 1) as nat);
    }
}

/// The characterization of `spec_ceil_sqrt` on `u32`-range inputs.
pub proof fn lemma_ceil_sqrt(n: int)
    requires
        0 <= n <= u32::MAX,
    ensures
        0 <= spec_ceil_sqrt(n) <= 65536,
        spec_ceil_sqrt(n) * spec_ceil_sqrt(n) >= n,
        spec_ceil_sqrt(n) > 0 ==> (spec_ceil_sqrt(n) - 1) * (spec_ceil_sqrt(n) - 1) < n,
{
    assert(65536 * 65536 >= n);
    lemma_ceil_sqrt_from(n, 65536);
}

/// The row width used when the caller does not supply one: a roughly
/// square grid, but never narrower than five columns.
pub open spec fn spec_auto_row_width(item_count: int) -> int {
    if spec_ceil_sqrt(item_count) >= 5 {
        spec_ceil_sqrt(item_count)
    } else {
        5
    }
}

/// The row width a layout computation settles on: the caller's choice if
/// one was given, the automatic square-ish default otherwise.
pub open spec fn spec_effective_row_width(item_count: int, row_width: Option<u32>) -> int {
    match row_width {
        Some(w) => w as int,
        None => spec_auto_row_width(item_count),
    }
}

/// Grid geometry for one compositor invocation: derived, read-only
/// configuration computed once from the item count and the row width.
pub struct LayoutPlan {
    /// How many tiles the grid places.
    pub item_count: u32,
    /// Tiles per row.
    pub row_width: u32,
    /// Number of rows: the ceiling of `item_count / row_width`.
    pub row_count: u32,
    /// Height of the text band reserved at the top of the canvas.
    pub header_height: u32,
    /// Edge of one square tile.
    pub tile_size: u32,
    /// `tile_size * row_width`.
    pub canvas_width: u32,
    /// `header_height + tile_size * row_count`.
    pub canvas_height: u32,
}

impl LayoutPlan {
    /// The defining equations of a layout plan.
    pub open spec fn wf(self) -> bool {
        &&& self.row_width >= 1
        &&& self.tile_size >= 1
        &&& self.row_count == spec_div_ceil(self.item_count as int, self.row_width as int)
        &&& self.canvas_width == self.tile_size * self.row_width
        &&& self.canvas_height == self.header_height + self.tile_size * self.row_count
    }

    /// Horizontal pixel offset of the `i`-th tile, row-major.
    pub open spec fn spec_x_offset(self, i: int) -> int {
        (i % (self.row_width as int)) * self.tile_size
    }

    /// Vertical pixel offset of the `i`-th tile, row-major: below the
    /// header band.
    pub open spec fn spec_y_offset(self, i: int) -> int {
        (i / (self.row_width as int)) * self.tile_size + self.header_height
    }
}

/// The grid can hold every item: `row_width * row_count >= item_count`.
pub proof fn lemma_grid_capacity(plan: LayoutPlan)
    requires
        plan.wf(),
    ensures
        plan.row_width * plan.row_count >= plan.item_count,
{
    let ic = plan.item_count as int;
    let rw = plan.row_width as int;
    lemma_fundamental_div_mod(ic + rw - 1, rw);
    lemma_mod_division_less_than_divisor(ic + rw - 1, rw);
    assert(plan.row_count == (ic + rw - 1) / rw);
    assert(rw * ((ic + rw - 1) / rw) == ic + rw - 1 - (ic + rw - 1) % rw);
}

/// Every placement, plus a full tile, stays inside the canvas.
pub proof fn lemma_offset_in_bounds(plan: LayoutPlan, i: int)
    requires
        plan.wf(),
        0 <= i < plan.item_count,
    ensures
        0 <= plan.spec_x_offset(i),
        0 <= plan.spec_y_offset(i),
        plan.spec_x_offset(i) + plan.tile_size <= plan.canvas_width,
        plan.spec_y_offset(i) + plan.tile_size <= plan.canvas_height,
{
    let ic = plan.item_count as int;
    let rw = plan.row_width as int;
    let ts = plan.tile_size as int;
    let col = i % rw;
    let row = i / rw;
    lemma_mod_division_less_than_divisor(i, rw);
    lemma_fundamental_div_mod(i, rw);
    assert(0 <= col < rw);
    // x bound: (col + 1) * ts <= rw * ts
    lemma_mul_inequality(col + 1, rw, ts);
    lemma_mul_is_distributive_add_other_way(ts, col, 1);
    assert(col * ts + ts <= rw * ts);
    assert(rw * ts == ts * rw) by (nonlinear_arith);
    // y bound: row < row_count, hence (row + 1) * ts <= row_count * ts
    lemma_grid_capacity(plan);
    assert(i < rw * plan.row_count);
    assert(row < plan.row_count) by {
        if row >= plan.row_count {
            lemma_mul_inequality(plan.row_count as int, row, rw);
            assert(plan.row_count * rw <= row * rw) by (nonlinear_arith)
                requires plan.row_count <= row && rw >= 0;
            assert(row * rw <= i) by (nonlinear_arith)
                requires i == rw * row + i % rw && i % rw >= 0;
        }
    };
    lemma_mul_inequality(row + 1, plan.row_count as int, ts);
    lemma_mul_is_distributive_add_other_way(ts, row, 1);
    assert(row * ts + ts <= plan.row_count * ts);
    assert(plan.row_count * ts == ts * plan.row_count) by (nonlinear_arith);
    // nonnegativity
    assert(col * ts >= 0) by (nonlinear_arith)
        requires col >= 0 && ts >= 0;
    assert(row * ts >= 0) by (nonlinear_arith)
        requires row >= 0 && ts >= 0;
}

/// No two distinct items' placement rectangles overlap: they are separated
/// by at least one tile edge horizontally or vertically.
pub proof fn lemma_placements_disjoint(plan: LayoutPlan, i: int, j: int)
    requires
        plan.wf(),
        0 <= i < plan.item_count,
        0 <= j < plan.item_count,
        i != j,
    ensures
        plan.spec_x_offset(i) + plan.tile_size <= plan.spec_x_offset(j)
            || plan.spec_x_offset(j) + plan.tile_size <= plan.spec_x_offset(i)
            || plan.spec_y_offset(i) + plan.tile_size <= plan.spec_y_offset(j)
            || plan.spec_y_offset(j) + plan.tile_size <= plan.spec_y_offset(i),
{
    let rw = plan.row_width as int;
    let ts = plan.tile_size as int;
    lemma_fundamental_div_mod(i, rw);
    lemma_fundamental_div_mod(j, rw);
    lemma_mod_division_less_than_divisor(i, rw);
    lemma_mod_division_less_than_divisor(j, rw);
    if i / rw == j / rw {
        // same row: the columns differ
        assert(i % rw != j % rw);
        if i % rw < j % rw {
            lemma_mul_inequality(i % rw + 1, j % rw, ts);
            lemma_mul_is_distributive_add_other_way(ts, i % rw, 1);
        } else {
            lemma_mul_inequality(j % rw + 1, i % rw, ts);
            lemma_mul_is_distributive_add_other_way(ts, j % rw, 1);
        }
    } else if i / rw < j / rw {
        lemma_mul_inequality(i / rw + 1, j / rw, ts);
        lemma_mul_is_distributive_add_other_way(ts, i / rw, 1);
    } else {
        lemma_mul_inequality(j / rw + 1, i / rw, ts);
        lemma_mul_is_distributive_add_other_way(ts, j / rw, 1);
    }
}

/// The ceiling of the square root of `n`, by a linear search upward.
pub fn ceil_sqrt(n: u32) -> (r: u32)
    ensures
        r == spec_ceil_sqrt(n as int),
{
    let mut r: u32 = 0;
    let n64 = n as u64;
    while (r as u64) * (r as u64) < n64
        invariant
            n64 == n,
            0 <= r <= 65536,
            (r as int) * (r as int) <= 0x1_0000_0000,
            r > 0 ==> (r - 1) * (r - 1) < n64,
        decreases 65536 - r,
    {
        assert(r < 65536) by (nonlinear_arith)
            requires
                (r as u64) * (r as u64) < n64 && n64 <= u32::MAX && 0 <= r <= 65536;
        assert((r + 1) * (r + 1) <= 0x1_0000_0000) by (nonlinear_arith)
            requires
                0 <= r < 65536;
        r = r + 1;
    }
    proof {
        lemma_ceil_sqrt(n as int);
        let s = spec_ceil_sqrt(n as int);
        // both r and s satisfy the characterization, which pins the value
        if r < s {
            assert(r * r < n) by (nonlinear_arith)
                requires 0 <= r <= s - 1 && (s - 1) * (s - 1) < n;
        }
        if s < r {
            assert(s * s < n) by (nonlinear_arith)
                requires 0 <= s <= r - 1 && (r - 1) * (r - 1) < n;
        }
    }
    r as u32
}

/// The maximum of two `u32` values.
pub fn max_u32(a: u32, b: u32) -> (r: u32)
    ensures
        r == if a >= b { a as int } else { b as int },
{
    if a >= b {
        a
    } else {
        b
    }
}

/// Ceiling division of `a` by `b`.
pub fn div_ceil_u32(a: u32, b: u32) -> (r: u32)
    requires
        b >= 1,
    ensures
        r == spec_div_ceil(a as int, b as int),
{
    proof {
        lemma_div_plus_multiple_bound(a as int, b as int);
    }
    let q = (a as u64 + (b as u64 - 1)) / (b as u64);
    q as u32
}

/// `(a + b - 1) / b <= a` for positive `b`: the ceiling of a division
/// never exceeds the dividend.
pub proof fn lemma_div_plus_multiple_bound(a: int, b: int)
    requires
        a >= 0,
        b >= 1,
    ensures
        0 <= (a + b - 1) / b <= a,
{
    lemma_fundamental_div_mod(a + b - 1, b);
    lemma_mod_division_less_than_divisor(a + b - 1, b);
    let q = (a + b - 1) / b;
    let m = (a + b - 1) % b;
    assert(b * q == a + b - 1 - m);
    assert(0 <= q <= a) by (nonlinear_arith)
        requires
            a >= 0 && b >= 1 && 0 <= m < b && b * q == a + b - 1 - m;
}

/// Computes the grid geometry for `item_count` tiles.
///
/// When `row_width` is absent it defaults to the ceiling of the square
/// root of the item count, but never fewer than five columns. The row
/// count is the ceiling of `item_count / row_width`; the canvas is
/// `tile_size * row_width` wide and `header_height + tile_size *
/// row_count` tall. An item count of zero still yields a valid plan whose
/// canvas holds only the header band.
pub fn compute_layout(
    item_count: u32,
    row_width: Option<u32>,
    header_height: u32,
    tile_size: u32,
) -> (plan: LayoutPlan)
    requires
        tile_size >= 1,
        row_width matches Some(w) ==> w >= 1,
        tile_size * spec_effective_row_width(item_count as int, row_width) <= u32::MAX,
        header_height + tile_size * spec_div_ceil(
            item_count as int,
            spec_effective_row_width(item_count as int, row_width),
        ) <= u32::MAX,
    ensures
        plan.wf(),
        plan.item_count == item_count,
        plan.header_height == header_height,
        plan.tile_size == tile_size,
        plan.row_width == spec_effective_row_width(item_count as int, row_width),
{
    let rw: u32 = match row_width {
        Some(w) => w,
        None => {
            proof {
                lemma_ceil_sqrt(item_count as int);
            }
            max_u32(ceil_sqrt(item_count), 5)
        },
    };
    let rows = div_ceil_u32(item_count, rw);
    let width = tile_size * rw;
    let height = header_height + tile_size * rows;
    LayoutPlan {
        item_count,
        row_width: rw,
        row_count: rows,
        header_height,
        tile_size,
        canvas_width: width,
        canvas_height: height,
    }
}

/// Placement of the `i`-th item within a plan's grid, as `(x, y)` pixel
/// offsets of its tile's top-left corner.
pub fn tile_offset(plan: &LayoutPlan, i: u32) -> (r: (u32, u32))
    requires
        plan.wf(),
        i < plan.item_count,
    ensures
        r.0 == plan.spec_x_offset(i as int),
        r.1 == plan.spec_y_offset(i as int),
        r.0 + plan.tile_size <= plan.canvas_width,
        r.1 + plan.tile_size <= plan.canvas_height,
{
    proof {
        lemma_offset_in_bounds(*plan, i as int);
        lemma_mod_division_less_than_divisor(i as int, plan.row_width as int);
        lemma_fundamental_div_mod(i as int, plan.row_width as int);
    }
    let x = (i % plan.row_width) * plan.tile_size;
    let y = (i / plan.row_width) * plan.tile_size + plan.header_height;
    (x, y)
}

} // verus!
