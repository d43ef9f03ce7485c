//! Fixed-point plane geometry: points, flooring division, squared
//! distances, integer square roots and segment intersection.
//!
//! One pixel is `SUBPIXEL` units; every coordinate the engine stores or
//! compares lives in these units as an `i64`.

use vstd::prelude::*;

verus! {

/// Units per pixel of the fixed-point coordinate grid.
pub const SUBPIXEL: i64 = 1000;

/// Largest magnitude, in fixed-point units, of a stored coordinate
/// (node position, pointer position, viewport corner): half a million
/// pixels.
pub const COORD_LIMIT: i64 = 500_000_000;

/// Largest magnitude of the pan offset. Zooming out around a far cursor
/// multiplies the pan, so its bound is far wider than [`COORD_LIMIT`];
/// camera updates saturate here, the fixed-point stand-in for float
/// finiteness.
pub const PAN_LIMIT: i64 = 200_000_000_000_000;

/// Largest magnitude of any dividend handed to [`floor_div`]; wide enough
/// for every product the engine forms (coordinate times zoom, curve
/// weight sums) while staying clear of `i64` overflow in the quotient
/// bound.
pub const DIVIDEND_LIMIT: i64 = 9_223_370_000_000_000_000;

/// Largest divisor handed to [`floor_div`].
pub const DIVISOR_LIMIT: i64 = 1_000_000_000_000;

/// The zoom factor meaning one screen pixel per graph pixel, in
/// thousandths.
pub const ZOOM_ONE: i64 = 1000;

/// The smallest zoom the canvas permits (0.2), in thousandths.
pub const MIN_ZOOM: i64 = 200;

/// The largest zoom the canvas permits (4.0), in thousandths.
pub const MAX_ZOOM: i64 = 4000;

/// A point or offset on the fixed-point grid.
#[derive(Clone, Copy, PartialEq, Eq, Structural, Debug)]
pub struct Vec2i {
    pub x: i64,
    pub y: i64,
}

impl Vec2i {
    /// Both coordinates lie within the stored-coordinate bound.
    pub open spec fn in_bounds(self) -> bool {
        -COORD_LIMIT <= self.x <= COORD_LIMIT && -COORD_LIMIT <= self.y <= COORD_LIMIT
    }

    pub fn new(x: i64, y: i64) -> (r: Vec2i)
        ensures
            r == (Vec2i { x, y }),
    {
        Vec2i { x, y }
    }

    pub fn zero() -> (r: Vec2i)
        ensures
            r == (Vec2i { x: 0, y: 0 }),
    {
        Vec2i { x: 0, y: 0 }
    }
}

/// Bound on a widget origin shifted by the pan.
pub const ORIGIN_LIMIT: i64 = PAN_LIMIT + COORD_LIMIT;

/// The larger of two integers.
pub open spec fn imax(a: int, b: int) -> int {
    if a >= b {
        a
    } else {
        b
    }
}

/// The smaller of two integers.
pub open spec fn imin(a: int, b: int) -> int {
    if a <= b {
        a
    } else {
        b
    }
}

/// The larger of two machine integers.
pub fn max_i64(a: i64, b: i64) -> (r: i64)
    ensures
        r == imax(a as int, b as int),
{
    if a >= b {
        a
    } else {
        b
    }
}

/// The smaller of two machine integers.
pub fn min_i64(a: i64, b: i64) -> (r: i64)
    ensures
        r == imin(a as int, b as int),
{
    if a <= b {
        a
    } else {
        b
    }
}

/// An axis-aligned rectangle on the fixed-point grid.
#[derive(Clone, Copy, PartialEq, Eq, Structural, Debug)]
pub struct Recti {
    pub min: Vec2i,
    pub max: Vec2i,
}

impl Recti {
    /// `p` lies inside the rectangle, edges included.
    pub open spec fn contains_spec(self, p: Vec2i) -> bool {
        self.min.x <= p.x <= self.max.x && self.min.y <= p.y <= self.max.y
    }

    /// Point-in-rectangle test, edges included.
    pub fn contains(&self, p: Vec2i) -> (r: bool)
        ensures
            r == self.contains_spec(p),
    {
        self.min.x <= p.x && p.x <= self.max.x && self.min.y <= p.y && p.y <= self.max.y
    }
}

impl Vec2i {
    /// Both coordinates lie within the shifted-origin bound.
    pub open spec fn origin_bounded(self) -> bool {
        -ORIGIN_LIMIT <= self.x <= ORIGIN_LIMIT && -ORIGIN_LIMIT <= self.y <= ORIGIN_LIMIT
    }
}

/// Flooring division: the Euclidean quotient of `a` by a positive `b`,
/// which rounds toward negative infinity.
pub fn floor_div(a: i64, b: i64) -> (r: i64)
    requires
        -DIVIDEND_LIMIT <= a <= DIVIDEND_LIMIT,
        1 <= b <= DIVISOR_LIMIT,
    ensures
        r == a as int / b as int,
        b * r <= a < b * (r + 1),
{
    proof {
        lemma_floor_div_bounds(a as int, b as int, DIVIDEND_LIMIT as int);
    }
    let q = a.checked_div_euclid(b);
    q.unwrap()
}

/// The Euclidean quotient of a bounded dividend by a positive divisor is
/// itself bounded by the dividend bound, and the quotient-remainder
/// identity brackets the dividend between consecutive multiples.
proof fn lemma_floor_div_bounds(a: int, b: int, lim: int)
    requires
        b >= 1,
        lim >= 0,
        -lim <= a <= lim,
    ensures
        -lim - b <= a / b <= lim,
        b * (a / b) <= a < b * (a / b + 1),
{
    vstd::arithmetic::div_mod::lemma_fundamental_div_mod(a, b);
    let q = a / b;
    let r = a % b;
    vstd::arithmetic::div_mod::lemma_mod_bound(a, b);
    assert(a == b * q + r);
    assert(0 <= r < b);
    assert(b * (q + 1) == b * q + b) by (nonlinear_arith);
    assert(q <= lim && q >= -lim - b) by (nonlinear_arith)
        requires
            b >= 1,
            lim >= 0,
            -lim <= a <= lim,
            a == b * q + r,
            0 <= r < b,
    ;
}

/// The squared Euclidean distance between two points.
pub open spec fn dist_sq_spec(a: Vec2i, b: Vec2i) -> int {
    (b.x - a.x) * (b.x - a.x) + (b.y - a.y) * (b.y - a.y)
}

/// Squared distance between two in-bounds points, exact and overflow-free.
pub fn dist_sq(a: Vec2i, b: Vec2i) -> (r: u64)
    requires
        a.in_bounds(),
        b.in_bounds(),
    ensures
        r == dist_sq_spec(a, b),
{
    let dx: i64 = b.x - a.x;
    let dy: i64 = b.y - a.y;
    proof {
        assert(dx * dx <= 4 * COORD_LIMIT * COORD_LIMIT && dx * dx >= 0) by (nonlinear_arith)
            requires
                -2 * COORD_LIMIT <= dx <= 2 * COORD_LIMIT,
        ;
        assert(dy * dy <= 4 * COORD_LIMIT * COORD_LIMIT && dy * dy >= 0) by (nonlinear_arith)
            requires
                -2 * COORD_LIMIT <= dy <= 2 * COORD_LIMIT,
        ;
    }
    let sx: i64 = dx * dx;
    let sy: i64 = dy * dy;
    (sx as u64) + (sy as u64)
}

/// The integer square root of `n`: the largest `r` with `r * r <= n`.
pub open spec fn isqrt_spec(n: int) -> int {
    choose|r: int| 0 <= r && #[trigger] (r * r) <= n < (r + 1) * (r + 1)
}

/// A root bracketing `n` is the integer square root; there is only one.
pub proof fn lemma_isqrt_unique(n: int, r: int)
    requires
        0 <= r,
        r * r <= n < (r + 1) * (r + 1),
    ensures
        isqrt_spec(n) == r,
{
    assert(exists|q: int| 0 <= q && #[trigger] (q * q) <= n < (q + 1) * (q + 1)) by {
        assert(0 <= r && r * r <= n < (r + 1) * (r + 1));
    }
    let w = isqrt_spec(n);
    assert(0 <= w && w * w <= n < (w + 1) * (w + 1));
    assert(w == r) by (nonlinear_arith)
        requires
            0 <= r,
            0 <= w,
            r * r <= n < (r + 1) * (r + 1),
            w * w <= n < (w + 1) * (w + 1),
    ;
}

/// The integer square root: the largest `r` with `r * r <= n`.
pub fn isqrt(n: u64) -> (r: u64)
    ensures
        r * r <= n < (r + 1) * (r + 1),
        r == isqrt_spec(n as int),
{
    let mut lo: u64 = 0;
    let mut hi: u64 = 0x1_0000_0000;
    proof {
        assert((0x1_0000_0000 as int) * (0x1_0000_0000 as int) > u64::MAX as int)
            by (nonlinear_arith);
    }
    while lo + 1 < hi
        invariant
            lo < hi <= 0x1_0000_0000,
            lo * lo <= n,
            n < hi * hi,
        decreases hi - lo,
    {
        let mid: u64 = lo + (hi - lo) / 2;
        proof {
            assert(mid * mid <= u64::MAX) by (nonlinear_arith)
                requires
                    mid < 0x1_0000_0000,
            ;
        }
        if mid * mid <= n {
            lo = mid;
        } else {
            hi = mid;
        }
    }
    proof {
        lemma_isqrt_unique(n as int, lo as int);
    }
    lo
}

/// The Euclidean distance between two in-bounds points, rounded down to
/// the fixed-point grid.
pub fn dist(a: Vec2i, b: Vec2i) -> (r: u64)
    requires
        a.in_bounds(),
        b.in_bounds(),
    ensures
        r == isqrt_spec(dist_sq_spec(a, b)),
        r * r <= dist_sq_spec(a, b) < (r + 1) * (r + 1),
        r <= 4 * COORD_LIMIT,
{
    let sq = dist_sq(a, b);
    let r = isqrt(sq);
    proof {
        assert(dist_sq_spec(a, b) <= 8 * (COORD_LIMIT as int) * (COORD_LIMIT as int))
            by (nonlinear_arith)
            requires
                a.in_bounds(),
                b.in_bounds(),
        ;
        assert(r <= 4 * COORD_LIMIT) by (nonlinear_arith)
            requires
                r * r <= sq,
                sq <= 8 * (COORD_LIMIT as int) * (COORD_LIMIT as int),
        ;
    }
    r
}

/// Coordinate bound for derived screen geometry (scaled positions plus
/// pan plus layout extents and curve control offsets); wider than
/// [`PAN_LIMIT`] so every point a transform or curve can produce still
/// admits exact cross products in 128 bits.
pub const GEOM_LIMIT: i64 = 450_000_000_000_000;

impl Vec2i {
    /// Both coordinates lie within the derived-geometry bound.
    pub open spec fn in_geom(self) -> bool {
        -GEOM_LIMIT <= self.x <= GEOM_LIMIT && -GEOM_LIMIT <= self.y <= GEOM_LIMIT
    }

    /// Both coordinates lie within the pan bound.
    pub open spec fn pan_bounded(self) -> bool {
        -PAN_LIMIT <= self.x <= PAN_LIMIT && -PAN_LIMIT <= self.y <= PAN_LIMIT
    }
}

/// Squared distance between two derived-geometry points, exact in 128
/// bits.
pub fn dist_sq_wide(a: Vec2i, b: Vec2i) -> (r: u128)
    requires
        a.in_geom(),
        b.in_geom(),
    ensures
        r == dist_sq_spec(a, b),
{
    let dx: i128 = (b.x as i128) - (a.x as i128);
    let dy: i128 = (b.y as i128) - (a.y as i128);
    proof {
        let g = GEOM_LIMIT as int;
        assert(dx * dx <= 4 * g * g && dx * dx >= 0) by (nonlinear_arith)
            requires
                -2 * g <= dx <= 2 * g,
        ;
        assert(dy * dy <= 4 * g * g && dy * dy >= 0) by (nonlinear_arith)
            requires
                -2 * g <= dy <= 2 * g,
        ;
    }
    let sx: i128 = dx * dx;
    let sy: i128 = dy * dy;
    (sx as u128) + (sy as u128)
}

/// Twice the signed area of the triangle `a b c`: positive when `c` lies
/// to the left of the directed line `a -> b`, zero when collinear.
pub open spec fn orient_spec(a: Vec2i, b: Vec2i, c: Vec2i) -> int {
    (b.x - a.x) * (c.y - a.y) - (b.y - a.y) * (c.x - a.x)
}

/// Exact orientation test; the integer grid needs no epsilon tolerance.
pub fn orient(a: Vec2i, b: Vec2i, c: Vec2i) -> (r: i128)
    requires
        a.in_geom(),
        b.in_geom(),
        c.in_geom(),
    ensures
        r == orient_spec(a, b, c),
{
    let ux: i128 = (b.x as i128) - (a.x as i128);
    let uy: i128 = (b.y as i128) - (a.y as i128);
    let vx: i128 = (c.x as i128) - (a.x as i128);
    let vy: i128 = (c.y as i128) - (a.y as i128);
    proof {
        let g = GEOM_LIMIT as int;
        assert(ux * vy <= 4 * g * g && ux * vy >= -4 * g * g) by (nonlinear_arith)
            requires
                -2 * g <= ux <= 2 * g,
                -2 * g <= vy <= 2 * g,
        ;
        assert(uy * vx <= 4 * g * g && uy * vx >= -4 * g * g) by (nonlinear_arith)
            requires
                -2 * g <= uy <= 2 * g,
                -2 * g <= vx <= 2 * g,
        ;
    }
    ux * vy - uy * vx
}

/// `p` lies within the axis-aligned bounding box of the segment `a b`.
pub open spec fn on_segment_spec(a: Vec2i, b: Vec2i, p: Vec2i) -> bool {
    &&& (if a.x <= b.x {
        a.x <= p.x <= b.x
    } else {
        b.x <= p.x <= a.x
    })
    &&& (if a.y <= b.y {
        a.y <= p.y <= b.y
    } else {
        b.y <= p.y <= a.y
    })
}

/// Bounding-box membership used by the collinear cases of the segment
/// intersection test.
pub fn on_segment(a: Vec2i, b: Vec2i, p: Vec2i) -> (r: bool)
    ensures
        r == on_segment_spec(a, b, p),
{
    let min_x: i64 = if a.x <= b.x { a.x } else { b.x };
    let max_x: i64 = if a.x <= b.x { b.x } else { a.x };
    let min_y: i64 = if a.y <= b.y { a.y } else { b.y };
    let max_y: i64 = if a.y <= b.y { b.y } else { a.y };
    min_x <= p.x && p.x <= max_x && min_y <= p.y && p.y <= max_y
}

/// The segments `a1 a2` and `b1 b2` meet: either an endpoint of one is
/// collinear with and inside the bounding box of the other, or the
/// endpoints of each lie strictly on opposite sides of the other's line.
pub open spec fn segments_intersect_spec(a1: Vec2i, a2: Vec2i, b1: Vec2i, b2: Vec2i) -> bool {
    let o1 = orient_spec(a1, a2, b1);
    let o2 = orient_spec(a1, a2, b2);
    let o3 = orient_spec(b1, b2, a1);
    let o4 = orient_spec(b1, b2, a2);
    ||| (o1 == 0 && on_segment_spec(a1, a2, b1))
    ||| (o2 == 0 && on_segment_spec(a1, a2, b2))
    ||| (o3 == 0 && on_segment_spec(b1, b2, a1))
    ||| (o4 == 0 && on_segment_spec(b1, b2, a2))
    ||| ((o1 > 0) != (o2 > 0) && (o3 > 0) != (o4 > 0))
}

/// Orientation-based segment intersection test, exact on the grid.
pub fn segments_intersect(a1: Vec2i, a2: Vec2i, b1: Vec2i, b2: Vec2i) -> (r: bool)
    requires
        a1.in_geom(),
        a2.in_geom(),
        b1.in_geom(),
        b2.in_geom(),
    ensures
        r == segments_intersect_spec(a1, a2, b1, b2),
{
    let o1 = orient(a1, a2, b1);
    let o2 = orient(a1, a2, b2);
    let o3 = orient(b1, b2, a1);
    let o4 = orient(b1, b2, a2);
    if o1 == 0 && on_segment(a1, a2, b1) {
        return true;
    }
    if o2 == 0 && on_segment(a1, a2, b2) {
        return true;
    }
    if o3 == 0 && on_segment(b1, b2, a1) {
        return true;
    }
    if o4 == 0 && on_segment(b1, b2, a2) {
        return true;
    }
    (o1 > 0) != (o2 > 0) && (o3 > 0) != (o4 > 0)
}

} // verus!
