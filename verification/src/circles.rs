//! Circles in the plane and the clearance that a packing keeps between them.

use crate::color_generator::Hsl;
use vstd::prelude::*;

verus! {

/// What two circles of a packing keep between them, beyond touching: it is
/// added to the square of the sum of their radii before that is compared with
/// the square of the distance of their centres. Fifty square pixels.
pub const CLEARANCE: i128 = 50_000_000_000_000;

/// No coordinate and no radius that the library computes with lies beyond
/// this: 2^60.
pub const COORD_LIMIT: i64 = 0x1000_0000_0000_0000;

/// A point of the plane. The origin is the centre of the area that is packed.
#[derive(Clone, Copy, Debug, PartialEq, Eq, Structural)]
pub struct Point {
    pub x: i64,
    pub y: i64,
}

/// A circle with its fill colour.
#[derive(Clone, Copy, Debug, PartialEq, Eq, Structural)]
pub struct Circle {
    pub pos: Point,
    pub r: i64,
    pub c: Hsl,
}

impl Point {
    /// Both coordinates are within the limit.
    pub open spec fn in_limits(self) -> bool {
        &&& -COORD_LIMIT <= self.x <= COORD_LIMIT
        &&& -COORD_LIMIT <= self.y <= COORD_LIMIT
    }
}

impl Circle {
    /// The centre is within the limit, the radius is not negative and within
    /// the limit.
    pub open spec fn in_limits(self) -> bool {
        &&& self.pos.in_limits()
        &&& radius_in_limits(self.r)
    }
}

/// The radius is not negative and within the limit.
pub open spec fn radius_in_limits(r: i64) -> bool {
    0 <= r <= COORD_LIMIT
}

/// The square of the distance between two points.
pub open spec fn dist_sq(a: Point, b: Point) -> int {
    (a.x - b.x) * (a.x - b.x) + (a.y - b.y) * (a.y - b.y)
}

/// A circle of radius `ra` about `a` and one of radius `rb` about `b` are
/// closer than a packing allows.
pub open spec fn too_close(a: Point, ra: i64, b: Point, rb: i64) -> bool {
    (ra + rb) * (ra + rb) + CLEARANCE > dist_sq(a, b)
}

/// The two circles are closer than a packing allows.
pub open spec fn circles_too_close(a: Circle, b: Circle) -> bool {
    too_close(a.pos, a.r, b.pos, b.r)
}

/// Every circle of the sequence is within the limits.
pub open spec fn all_in_limits(cv: Seq<Circle>) -> bool {
    forall|j: int| 0 <= j < cv.len() ==> (#[trigger] cv[j]).in_limits()
}

/// No two circles of the sequence are closer than a packing allows.
pub open spec fn pairwise_clear(cv: Seq<Circle>) -> bool {
    forall|i: int, j: int| 0 <= i < j < cv.len() ==> !circles_too_close(cv[i], cv[j])
}

proof fn lemma_square_bound(d: int, m: int)
    requires
        -m <= d <= m,
    ensures
        0 <= d * d <= m * m,
{
    assert(0 <= d * d <= m * m) by (nonlinear_arith)
        requires
            -m <= d <= m,
    ;
}

/// Whether the two circles are closer than a packing allows.
pub fn is_too_close(a: Point, ra: i64, b: Point, rb: i64) -> (close: bool)
    requires
        a.in_limits(),
        b.in_limits(),
        radius_in_limits(ra),
        radius_in_limits(rb),
    ensures
        close == too_close(a, ra, b, rb),
{
    let dx: i128 = a.x as i128 - b.x as i128;
    let dy: i128 = a.y as i128 - b.y as i128;
    let rs: i128 = ra as i128 + rb as i128;
    proof {
        lemma_square_bound(dx as int, 2 * COORD_LIMIT);
        lemma_square_bound(dy as int, 2 * COORD_LIMIT);
        lemma_square_bound(rs as int, 2 * COORD_LIMIT);
    }
    rs * rs + CLEARANCE > dx * dx + dy * dy
}

/// Whether `c` is too close to any circle of `cv`.
pub fn intersects_any(c: &Circle, cv: &[Circle]) -> (hit: bool)
    requires
        c.in_limits(),
        all_in_limits(cv@),
    ensures
        hit == exists|j: int| 0 <= j < cv@.len() && circles_too_close(*c, #[trigger] cv@[j]),
{
    let mut j: usize = 0;
    while j < cv.len()
        invariant
            j <= cv@.len(),
            c.in_limits(),
            all_in_limits(cv@),
            forall|k: int| 0 <= k < j ==> !circles_too_close(*c, #[trigger] cv@[k]),
        decreases cv@.len() - j,
    {
        let tc = &cv[j];
        if is_too_close(c.pos, c.r, tc.pos, tc.r) {
            return true;
        }
        j += 1;
    }
    false
}

/// Whether a circle of radius `r` about `pos` is too close to any of the
/// circles given by their centres and radii, taken in pairs; what one slice
/// has beyond the length of the other is not looked at.
pub fn intersects_any2(pos: Point, r: i64, vec_pos: &[Point], vec_radius: &[i64]) -> (hit: bool)
    requires
        pos.in_limits(),
        radius_in_limits(r),
        forall|j: int| 0 <= j < vec_pos@.len() ==> (#[trigger] vec_pos@[j]).in_limits(),
        forall|j: int| 0 <= j < vec_radius@.len() ==> radius_in_limits(#[trigger] vec_radius@[j]),
    ensures
        hit == exists|j: int|
            0 <= j < vec_pos@.len() && j < vec_radius@.len() && too_close(
                pos,
                r,
                #[trigger] vec_pos@[j],
                vec_radius@[j],
            ),
{
    let mut j: usize = 0;
    while j < vec_pos.len() && j < vec_radius.len()
        invariant
            j <= vec_pos@.len(),
            j <= vec_radius@.len(),
            pos.in_limits(),
            radius_in_limits(r),
            forall|k: int| 0 <= k < vec_pos@.len() ==> (#[trigger] vec_pos@[k]).in_limits(),
            forall|k: int| 0 <= k < vec_radius@.len() ==> radius_in_limits(#[trigger] vec_radius@[k]),
            forall|k: int| 0 <= k < j ==> !too_close(pos, r, #[trigger] vec_pos@[k], vec_radius@[k]),
        decreases vec_pos@.len() - j,
    {
        if is_too_close(pos, r, vec_pos[j], vec_radius[j]) {
            return true;
        }
        j += 1;
    }
    false
}

} // verus!
