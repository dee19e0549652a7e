//! Positions in grid space with sub-cell precision, and straight-line movement.
use vstd::prelude::*;
use crate::grid::Pos;

verus! {

/// Sub-cell units in one grid cell (a cell is drawn 12 pixels wide: 100 units a pixel).
pub const UNITS_PER_CELL: i64 = 1200;
/// No coordinate of a point that the crate makes is larger than this in magnitude.
pub const POINT_LIMIT: i64 = 0x400_0000_0000;

/// A position in grid space, in sub-cell units.
#[derive(Clone, Copy, Debug, PartialEq, Eq, Structural)]
pub struct Point {
    pub x: i64,
    pub y: i64,
}

pub open spec fn point_ok(p: Point) -> bool {
    -POINT_LIMIT <= p.x <= POINT_LIMIT && -POINT_LIMIT <= p.y <= POINT_LIMIT
}

/// The centre of a cell.
pub open spec fn cell_point(p: Pos) -> Point {
    Point { x: (p.x * UNITS_PER_CELL) as i64, y: (p.y * UNITS_PER_CELL) as i64 }
}

/// `r` is the integer square root of `n`, rounded down.
pub open spec fn is_sqrt_floor(n: int, r: int) -> bool {
    0 <= r && r * r <= n < (r + 1) * (r + 1)
}

pub open spec fn sqrt_floor(n: int) -> int {
    choose|r: int| is_sqrt_floor(n, r)
}

/// Straight-line length from `a` to `b`, rounded down.
pub open spec fn leg_len(a: Point, b: Point) -> int {
    sqrt_floor((b.x - a.x) * (b.x - a.x) + (b.y - a.y) * (b.y - a.y))
}

/// The point `travelled` units along the segment from `a` to `b` of length `len`
/// (rounded toward `a`).
pub open spec fn point_along(a: Point, b: Point, travelled: int, len: int) -> Point {
    if len <= 0 {
        a
    } else {
        Point {
            x: (a.x + crate::simulation::div_trunc((b.x - a.x) * travelled, len)) as i64,
            y: (a.y + crate::simulation::div_trunc((b.y - a.y) * travelled, len)) as i64,
        }
    }
}

proof fn lemma_sqrt_unique(n: int, r: int, q: int)
    requires
        is_sqrt_floor(n, r),
        is_sqrt_floor(n, q),
    ensures
        r == q,
{
    if r < q {
        assert((r + 1) * (r + 1) <= q * q) by (nonlinear_arith)
            requires 0 <= r + 1 <= q;
    } else if q < r {
        assert((q + 1) * (q + 1) <= r * r) by (nonlinear_arith)
            requires 0 <= q + 1 <= r;
    }
}

proof fn lemma_sqrt_exists(n: int)
    requires
        n >= 0,
    ensures
        is_sqrt_floor(n, sqrt_floor(n)),
    decreases n,
{
    if n == 0 {
        assert(is_sqrt_floor(0, 0));
    } else {
        lemma_sqrt_exists(n - 1);
        let r = sqrt_floor(n - 1);
        if (r + 1) * (r + 1) <= n {
            assert((r + 2) * (r + 2) > n) by (nonlinear_arith)
                requires (r + 1) * (r + 1) == n, r >= 0;
            assert(is_sqrt_floor(n, r + 1));
        } else {
            assert(is_sqrt_floor(n, r));
        }
    }
}

/// The length of a leg between two points in range fits comfortably in a `u64`.
pub proof fn lemma_leg_len_bounds(a: Point, b: Point)
    requires
        point_ok(a),
        point_ok(b),
    ensures
        0 <= leg_len(a, b) < 0x10_0000_0000_0000,
{
    let dx = b.x - a.x;
    let dy = b.y - a.y;
    let n = dx * dx + dy * dy;
    assert(0 <= n <= 2 * (0x800_0000_0000 * 0x800_0000_0000)) by (nonlinear_arith)
        requires -0x800_0000_0000 <= dx <= 0x800_0000_0000, -0x800_0000_0000 <= dy <= 0x800_0000_0000, n == dx * dx + dy * dy;
    lemma_sqrt_exists(n);
    let r = sqrt_floor(n);
    assert(r < 0x10_0000_0000_0000) by (nonlinear_arith)
        requires r >= 0, r * r <= n, n <= 2 * (0x800_0000_0000 * 0x800_0000_0000);
}

/// Integer square root by bisection.
pub fn sqrt_floor_exec(n: u128) -> (r: u64)
    requires
        n < 0x1_0000_0000_0000_0000_0000_0000,
    ensures
        r == sqrt_floor(n as int),
        r < 0x10_0000_0000_0000,
{
    let mut lo: u128 = 0;
    let mut hi: u128 = 0x10_0000_0000_0000;
    assert(hi * hi == 0x100_0000_0000_0000_0000_0000_0000) by (nonlinear_arith)
        requires hi == 0x10_0000_0000_0000;
    while hi - lo > 1
        invariant
            lo < hi <= 0x10_0000_0000_0000,
            lo * lo <= n < hi * hi,
        decreases hi - lo,
    {
        let mid = lo + (hi - lo) / 2;
        assert(mid * mid <= 0x100_0000_0000_0000_0000_0000_0000) by (nonlinear_arith)
            requires mid <= 0x10_0000_0000_0000;
        if mid * mid <= n {
            lo = mid;
        } else {
            hi = mid;
        }
    }
    proof {
        assert(is_sqrt_floor(n as int, lo as int));
        lemma_sqrt_unique(n as int, lo as int, sqrt_floor(n as int));
    }
    lo as u64
}

/// The centre of a cell.
pub fn cell_center(p: Pos) -> (r: Point)
    ensures
        r == cell_point(p),
        point_ok(r),
{
    Point { x: p.x as i64 * UNITS_PER_CELL, y: p.y as i64 * UNITS_PER_CELL }
}

/// Straight-line length from `a` to `b`, rounded down.
pub fn distance(a: Point, b: Point) -> (r: u64)
    requires
        point_ok(a),
        point_ok(b),
    ensures
        r == leg_len(a, b),
        r < 0x10_0000_0000_0000,
{
    let dx = (b.x - a.x) as i128;
    let dy = (b.y - a.y) as i128;
    proof {
        assert(dx * dx <= 0x800_0000_0000 * 0x800_0000_0000) by (nonlinear_arith)
            requires -0x800_0000_0000 <= dx <= 0x800_0000_0000;
        assert(dy * dy <= 0x800_0000_0000 * 0x800_0000_0000) by (nonlinear_arith)
            requires -0x800_0000_0000 <= dy <= 0x800_0000_0000;
        assert(0 <= dx * dx) by (nonlinear_arith);
        assert(0 <= dy * dy) by (nonlinear_arith);
    }
    let sq = (dx * dx + dy * dy) as u128;
    sqrt_floor_exec(sq)
}

/// The point `travelled` units along the segment from `a` to `b` of length `len`.
pub fn along(a: Point, b: Point, travelled: u64, len: u64) -> (r: Point)
    requires
        point_ok(a),
        point_ok(b),
        travelled <= len,
        len < 0x10_0000_0000_0000,
    ensures
        r == point_along(a, b, travelled as int, len as int),
{
    if len == 0 {
        return a;
    }
    let dx = (b.x - a.x) as i128;
    let dy = (b.y - a.y) as i128;
    let t = travelled as i128;
    let l = len as i128;
    proof {
        lemma_step_bound(dx as int, t as int, l as int);
        lemma_step_bound(dy as int, t as int, l as int);
    }
    let sx = trunc_div(dx * t, l);
    let sy = trunc_div(dy * t, l);
    Point { x: (a.x as i128 + sx) as i64, y: (a.y as i128 + sy) as i64 }
}

/// A step toward `b` never leaves the segment: its length is at most `|d|`.
proof fn lemma_step_bound(d: int, t: int, l: int)
    requires
        -0x800_0000_0000 <= d <= 0x800_0000_0000,
        0 <= t <= l,
        0 < l < 0x10_0000_0000_0000,
    ensures
        -0x800_0000_0000 * 0x10_0000_0000_0000 <= d * t <= 0x800_0000_0000 * 0x10_0000_0000_0000,
        d >= 0 ==> 0 <= (d * t) / l <= d,
        d < 0 ==> 0 <= (-(d * t)) / l <= -d,
{
    assert(-0x800_0000_0000 * 0x10_0000_0000_0000 <= d * t <= 0x800_0000_0000 * 0x10_0000_0000_0000) by (nonlinear_arith)
        requires -0x800_0000_0000 <= d <= 0x800_0000_0000, 0 <= t < 0x10_0000_0000_0000;
    if d >= 0 {
        assert(0 <= d * t <= d * l) by (nonlinear_arith)
            requires 0 <= d, 0 <= t <= l;
        vstd::arithmetic::div_mod::lemma_div_is_ordered(d * t, d * l, l);
        vstd::arithmetic::div_mod::lemma_div_by_multiple(d, l);
        vstd::arithmetic::div_mod::lemma_div_pos_is_pos(d * t, l);
    } else {
        assert(0 <= -(d * t) <= (-d) * l) by (nonlinear_arith)
            requires d < 0, 0 <= t <= l;
        vstd::arithmetic::div_mod::lemma_div_is_ordered(-(d * t), (-d) * l, l);
        vstd::arithmetic::div_mod::lemma_div_by_multiple(-d, l);
        vstd::arithmetic::div_mod::lemma_div_pos_is_pos(-(d * t), l);
    }
}

fn trunc_div(a: i128, b: i128) -> (r: i128)
    requires
        a > i128::MIN,
        b > 0,
    ensures
        r == crate::simulation::div_trunc(a as int, b as int),
{
    if a >= 0 {
        a / b
    } else {
        -((-a) / b)
    }
}

} // verus!
