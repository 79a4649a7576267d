//! Integer coordinates in world space.
//!
//! A `Point` addresses a tile; chunk coordinates are world coordinates
//! divided by the chunk side length with floor division, so that negative
//! world positions map to the correct chunk.

use vstd::prelude::*;

verus! {

/// An (x, y) coordinate in world space or chunk space.
#[derive(Clone, Copy, PartialEq, Eq, Structural, Debug, Hash)]
pub struct Point {
    pub x: i32,
    pub y: i32,
}

impl Point {
    pub fn new(x: i32, y: i32) -> (r: Point)
        ensures
            r == (Point { x, y }),
    {
        Point { x, y }
    }

    pub fn zero() -> (r: Point)
        ensures
            r == (Point { x: 0, y: 0 }),
    {
        Point { x: 0, y: 0 }
    }

    /// The point moved by the given deltas.
    pub fn offset(self, dx: i32, dy: i32) -> (r: Point)
        requires
            i32::MIN <= self.x + dx <= i32::MAX,
            i32::MIN <= self.y + dy <= i32::MAX,
        ensures
            r.x == self.x + dx,
            r.y == self.y + dy,
    {
        Point { x: self.x + dx, y: self.y + dy }
    }
}

/// Floor division: the largest integer at most `a / b`. For positive `b`
/// this agrees with mathematical (Euclidean) division on `int`.
pub fn floor_div(a: i32, b: i32) -> (q: i32)
    requires
        b > 0,
    ensures
        q == a as int / b as int,
{
    let ai = a as i64;
    let bi = b as i64;
    if ai >= 0 {
        let q = ai / bi;
        assert(q == a as int / b as int) by {
            vstd::arithmetic::div_mod::lemma_div_pos_is_pos(ai as int, bi as int);
            vstd::arithmetic::div_mod::lemma_div_nonincreasing(ai as int, bi as int);
        };
        q as i32
    } else {
        let n = -ai;
        let d = (n - 1) / bi;
        let q = -d - 1;
        assert(q == a as int / b as int && a as int <= q <= 0) by {
            let r = (n - 1) as int % (bi as int);
            vstd::arithmetic::div_mod::lemma_div_pos_is_pos((n - 1) as int, bi as int);
            vstd::arithmetic::div_mod::lemma_fundamental_div_mod((n - 1) as int, bi as int);
            assert(ai as int == (-d - 1) * bi + (bi - 1 - r)) by (nonlinear_arith)
                requires
                    (n - 1) as int == (d as int) * (bi as int) + r,
                    ai == -n,
            ;
            vstd::arithmetic::div_mod::lemma_fundamental_div_mod_converse(
                ai as int,
                bi as int,
                -d - 1,
                bi - 1 - r,
            );
            assert(ai as int <= -d - 1 <= 0) by (nonlinear_arith)
                requires
                    ai as int == (-d - 1) * bi + (bi - 1 - r),
                    0 <= bi - 1 - r < bi,
                    1 <= bi,
                    ai < 0,
                    d >= 0,
            ;
        };
        q as i32
    }
}

} // verus!
