//! Points in one coordinate space, held in fixed point with 1/256-pixel
//! resolution, and integer square roots for distances.
use vstd::prelude::*;

verus! {

/// Fixed-point units per pixel: point coordinates count 1/256 of a pixel.
pub const SUBPIXELS: i32 = 256;

/// A point in display or image space (never mixed), its coordinates in units
/// of 1/`SUBPIXELS` pixel.
#[derive(Clone, Copy, PartialEq, Eq, Structural, Debug)]
pub struct Point {
    pub x: i32,
    pub y: i32,
}

/// `r` is the square root of `n`, rounded down.
pub open spec fn is_floor_sqrt(r: int, n: int) -> bool {
    0 <= r && r * r <= n < (r + 1) * (r + 1)
}

/// The square root of `n`, rounded down.
pub open spec fn floor_sqrt(n: int) -> int {
    choose|r: int| is_floor_sqrt(r, n)
}

/// Squared Euclidean distance between two points.
pub open spec fn dist2(a: Point, b: Point) -> int {
    (a.x - b.x) * (a.x - b.x) + (a.y - b.y) * (a.y - b.y)
}

/// A number has at most one rounded-down square root.
proof fn lemma_floor_sqrt_unique(r: int, n: int)
    requires
        is_floor_sqrt(r, n),
    ensures
        floor_sqrt(n) == r,
{
    let s = floor_sqrt(n);
    assert(is_floor_sqrt(s, n));
    if s < r {
        assert((s + 1) * (s + 1) <= r * r) by (nonlinear_arith)
            requires
                0 <= s < r,
        ;
    } else if r < s {
        assert((r + 1) * (r + 1) <= s * s) by (nonlinear_arith)
            requires
                0 <= r < s,
        ;
    }
}

/// The square root of `n`, rounded down, for `n` below 2^100.
#[verifier::spinoff_prover]
pub fn isqrt(n: u128) -> (r: u128)
    requires
        n < 0x10000000000000000000000000,
    ensures
        is_floor_sqrt(r as int, n as int),
        r as int == floor_sqrt(n as int),
        r < 0x4000000000000,
{
    let mut lo: u128 = 0;
    let mut hi: u128 = 0x4000000000000;
    assert(0x4000000000000 * 0x4000000000000 == 0x10000000000000000000000000);
    while hi - lo > 1
        invariant
            lo < hi <= 0x4000000000000,
            lo * lo <= n,
            n < hi * hi,
        decreases hi - lo,
    {
        let mid = lo + (hi - lo) / 2;
        assert(mid * mid <= hi * hi) by (nonlinear_arith)
            requires
                0 <= mid <= hi,
        ;
        assert(hi * hi <= 0x4000000000000 * 0x4000000000000) by (nonlinear_arith)
            requires
                0 <= hi <= 0x4000000000000,
        ;
        if mid * mid <= n {
            lo = mid;
        } else {
            hi = mid;
        }
    }
    assert(hi == lo + 1);
    proof {
        lemma_floor_sqrt_unique(lo as int, n as int);
    }
    lo
}

impl Point {
    /// The point at whole pixels (`x`, `y`); coordinates are limited to the
    /// range that 1/256-pixel units in an `i32` can hold.
    pub fn new(x: i32, y: i32) -> (r: Point)
        requires
            -0x800000 <= x < 0x800000,
            -0x800000 <= y < 0x800000,
        ensures
            r.x == x * SUBPIXELS,
            r.y == y * SUBPIXELS,
    {
        Point { x: x * SUBPIXELS, y: y * SUBPIXELS }
    }

    /// The point at (`x`, `y`) in 1/256-pixel units.
    pub fn from_units(x: i32, y: i32) -> (r: Point)
        ensures
            r.x == x,
            r.y == y,
    {
        Point { x, y }
    }

    /// Euclidean distance to `other` in 1/256-pixel units, rounded down.
    #[verifier::spinoff_prover]
    pub fn distance_to(&self, other: &Point) -> (r: u64)
        ensures
            r as int == floor_sqrt(dist2(*self, *other)),
            is_floor_sqrt(r as int, dist2(*self, *other)),
    {
        let dx = (self.x as i64 - other.x as i64) as i128;
        let dy = (self.y as i64 - other.y as i64) as i128;
        assert(dx * dx <= 0x10000000000000000) by (nonlinear_arith)
            requires
                -0x100000000 <= dx <= 0x100000000,
        ;
        assert(dy * dy <= 0x10000000000000000) by (nonlinear_arith)
            requires
                -0x100000000 <= dy <= 0x100000000,
        ;
        assert(0 <= dx * dx) by (nonlinear_arith);
        assert(0 <= dy * dy) by (nonlinear_arith);
        let n = (dx * dx + dy * dy) as u128;
        let r = isqrt(n);
        assert(r < 0x200000000) by (nonlinear_arith)
            requires
                r * r <= n,
                n <= 0x20000000000000000,
                r >= 0,
        ;
        r as u64
    }
}

} // verus!
