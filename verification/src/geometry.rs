//! Integer world-space geometry: coordinates, exact squared distances, the
//! floor of the Euclidean distance, and axis-aligned box overlap.
//!
//! All world positions are integer coordinates bounded by `COORD_LIMIT`, so
//! every squared distance fits in a `u64` and every computation is exact.

use vstd::prelude::*;

verus! {

/// Largest magnitude a world coordinate may take. Keeps `dist_sq` within
/// `u64` range: (2 * 10^9)^2 * 2 = 8 * 10^18 < u64::MAX.
pub const COORD_LIMIT: i64 = 1_000_000_000;

/// A position (or direction vector) in world space.
#[derive(Clone, Copy, Debug, PartialEq, Eq, Structural)]
pub struct Coordinate {
    pub x: i64,
    pub y: i64,
}

/// A coordinate lies inside the world bounds.
pub open spec fn in_bounds(c: Coordinate) -> bool {
    -COORD_LIMIT <= c.x <= COORD_LIMIT && -COORD_LIMIT <= c.y <= COORD_LIMIT
}

/// Exact squared Euclidean distance between two points.
pub open spec fn dist_sq(a: Coordinate, b: Coordinate) -> int {
    (a.x - b.x) * (a.x - b.x) + (a.y - b.y) * (a.y - b.y)
}

/// Floor of the square root of `n`: the world's integer distance measure.
pub open spec fn sqrt_floor(n: nat) -> nat
    decreases n,
{
    if n == 0 {
        0
    } else {
        let r = sqrt_floor((n - 1) as nat);
        if (r + 1) * (r + 1) <= n {
            (r + 1) as nat
        } else {
            r
        }
    }
}

/// `sqrt_floor(n)` is the unique `r` with `r * r <= n < (r + 1) * (r + 1)`.
pub proof fn lemma_sqrt_floor_bounds(n: nat)
    ensures
        sqrt_floor(n) * sqrt_floor(n) <= n,
        n < (sqrt_floor(n) + 1) * (sqrt_floor(n) + 1),
    decreases n,
{
    if n == 0 {
        assert(sqrt_floor(n) == 0);
        assert(n < (sqrt_floor(n) + 1) * (sqrt_floor(n) + 1)) by (nonlinear_arith)
            requires n == 0 && sqrt_floor(n) == 0;
    } else {
        lemma_sqrt_floor_bounds((n - 1) as nat);
        let r = sqrt_floor((n - 1) as nat);
        assert(r * r <= n - 1);
        assert(n - 1 < (r + 1) * (r + 1));
        if (r + 1) * (r + 1) <= n {
            assert(sqrt_floor(n) == r + 1);
            assert(n < ((r + 1) + 1) * ((r + 1) + 1)) by (nonlinear_arith)
                requires n - 1 < (r + 1) * (r + 1);
        } else {
            assert(sqrt_floor(n) == r);
        }
    }
}

/// Any `r` in the square-root band equals `sqrt_floor(n)`.
pub proof fn lemma_sqrt_floor_unique(n: nat, r: nat)
    requires
        r * r <= n,
        n < (r + 1) * (r + 1),
    ensures
        r == sqrt_floor(n),
{
    lemma_sqrt_floor_bounds(n);
    let s = sqrt_floor(n);
    if r < s {
        assert((r + 1) * (r + 1) <= s * s) by (nonlinear_arith)
            requires r + 1 <= s;
        assert(false);
    }
    if s < r {
        assert((s + 1) * (s + 1) <= r * r) by (nonlinear_arith)
            requires s + 1 <= r;
        assert(false);
    }
}

/// Exact squared distance between two in-bounds points.
pub fn distance_squared(a: Coordinate, b: Coordinate) -> (r: u64)
    requires
        in_bounds(a),
        in_bounds(b),
    ensures
        r == dist_sq(a, b),
{
    let dx: i64 = a.x - b.x;
    let dy: i64 = a.y - b.y;
    proof {
        assert(dx * dx <= 4_000_000_000_000_000_000) by (nonlinear_arith)
            requires -2_000_000_000 <= dx <= 2_000_000_000;
        assert(dy * dy <= 4_000_000_000_000_000_000) by (nonlinear_arith)
            requires -2_000_000_000 <= dy <= 2_000_000_000;
        assert(dx * dx >= 0) by (nonlinear_arith);
        assert(dy * dy >= 0) by (nonlinear_arith);
    }
    let sq: i64 = dx * dx + dy * dy;
    sq as u64
}

/// Floor of the square root, by binary search over the root.
pub fn isqrt(n: u64) -> (r: u64)
    ensures
        r == sqrt_floor(n as nat),
{
    let mut lo: u64 = 0;
    let mut hi: u64 = 4_294_967_296;
    proof {
        assert((4_294_967_296 as int) * (4_294_967_296 as int) > u64::MAX as int);
    }
    while hi - lo > 1
        invariant
            lo < hi <= 4_294_967_296,
            lo * lo <= n,
            n < hi * hi,
        decreases hi - lo,
    {
        let mid: u64 = lo + (hi - lo) / 2;
        proof {
            assert(mid * mid < 18446744073709551616) by (nonlinear_arith)
                requires mid < 4_294_967_296;
        }
        if mid * mid <= n {
            lo = mid;
        } else {
            hi = mid;
        }
    }
    proof {
        assert(n < (lo + 1) * (lo + 1));
        lemma_sqrt_floor_unique(n as nat, lo as nat);
    }
    lo
}

/// Integer Euclidean distance (floored) between two in-bounds points.
pub fn distance(a: Coordinate, b: Coordinate) -> (r: u64)
    requires
        in_bounds(a),
        in_bounds(b),
    ensures
        r == sqrt_floor(dist_sq(a, b) as nat),
{
    isqrt(distance_squared(a, b))
}

/// Two axis-aligned boxes, given by centre and half-extents, overlap:
/// strict interior intersection on both axes.
pub open spec fn overlaps(
    a: Coordinate,
    a_half_w: int,
    a_half_h: int,
    b: Coordinate,
    b_half_w: int,
    b_half_h: int,
) -> bool {
    &&& -(a_half_w + b_half_w) < a.x - b.x < a_half_w + b_half_w
    &&& -(a_half_h + b_half_h) < a.y - b.y < a_half_h + b_half_h
}

/// Axis-aligned bounding-box collision test.
pub fn boxes_overlap(
    a: Coordinate,
    a_half_w: u64,
    a_half_h: u64,
    b: Coordinate,
    b_half_w: u64,
    b_half_h: u64,
) -> (r: bool)
    requires
        in_bounds(a),
        in_bounds(b),
        a_half_w <= COORD_LIMIT,
        a_half_h <= COORD_LIMIT,
        b_half_w <= COORD_LIMIT,
        b_half_h <= COORD_LIMIT,
    ensures
        r == overlaps(a, a_half_w as int, a_half_h as int, b, b_half_w as int, b_half_h as int),
{
    let dx: i64 = a.x - b.x;
    let dy: i64 = a.y - b.y;
    let wx: i64 = a_half_w as i64 + b_half_w as i64;
    let wy: i64 = a_half_h as i64 + b_half_h as i64;
    -wx < dx && dx < wx && -wy < dy && dy < wy
}

} // verus!
