//! The force law: a pure repulsion between two points that are closer than
//! the interaction radius.
//!
//! The push is strongest when the two points almost touch and fades
//! linearly to nothing at the interaction radius. It is divided by the
//! damping factor before it moves anything, and rounded away from zero, so
//! that two points inside the radius never stall.

use vstd::prelude::*;
use crate::sqrt::{floor_sqrt, is_floor_sqrt, isqrt, lemma_floor_sqrt_exists, lemma_square_monotone};
use crate::vector::{Force, Point};

verus! {

/// The distance, in presentation units, from which two vertices leave each
/// other alone.
pub const INTERACTION_RADIUS: i64 = 120;

/// The divisor that turns an overlap into a displacement for one tick.
pub const DAMPING: i64 = 8;

/// The largest displacement that one vertex causes along one axis in one
/// tick: the interaction radius over the damping, rounded up.
pub const MAX_PUSH: i64 = 15;

/// The squared distance between two points.
pub open spec fn distance_squared(p: Point, q: Point) -> int {
    (p.x - q.x) * (p.x - q.x) + (p.y - q.y) * (p.y - q.y)
}

/// Whether two points are close enough to push each other.
pub open spec fn within_reach(p: Point, q: Point) -> bool {
    distance_squared(p, q) < INTERACTION_RADIUS * INTERACTION_RADIUS
}

/// The quotient of `a` by `b`, rounded up.
pub open spec fn ceil_div(a: int, b: int) -> int
    recommends
        0 <= a,
        0 < b,
{
    (a + b - 1) / b
}

/// The displacement along one axis for an offset `d` along that axis
/// between two points at distance `r`: the share `d / r` of the damped
/// overlap, rounded away from zero.
pub open spec fn push(d: int, r: int) -> int
    recommends
        1 <= r < INTERACTION_RADIUS,
        -r <= d <= r,
{
    if d >= 0 {
        ceil_div(d * (INTERACTION_RADIUS - r), r * DAMPING)
    } else {
        -ceil_div((-d) * (INTERACTION_RADIUS - r), r * DAMPING)
    }
}

/// The force on a vertex at `p` from a vertex at `q`.
///
/// Out of reach there is none. Two vertices on the same spot get the
/// largest push along the x axis, `forward` saying which way. Otherwise the
/// force points from `q` to `p`.
pub open spec fn repulsion(p: Point, q: Point, forward: bool) -> Force {
    let dx = p.x - q.x;
    let dy = p.y - q.y;
    if !within_reach(p, q) {
        Force::zero()
    } else if dx == 0 && dy == 0 {
        Force { x: if forward { MAX_PUSH } else { (-MAX_PUSH) as i64 }, y: 0 }
    } else {
        let r = floor_sqrt(distance_squared(p, q) as nat) as int;
        Force { x: push(dx, r) as i64, y: push(dy, r) as i64 }
    }
}

/// A push has the sign of its offset, is at least one unit long where the
/// offset is not zero, and never exceeds `MAX_PUSH`.
pub proof fn lemma_push_bounds(d: int, r: int)
    requires
        1 <= r < INTERACTION_RADIUS,
        -r <= d <= r,
    ensures
        -MAX_PUSH <= push(d, r) <= MAX_PUSH,
        d > 0 ==> push(d, r) >= 1,
        d < 0 ==> push(d, r) <= -1,
        d == 0 ==> push(d, r) == 0,
        push(-d, r) == -push(d, r),
{
    let m = if d >= 0 { d } else { -d };
    let a = m * (INTERACTION_RADIUS - r);
    let b = r * DAMPING;
    assert(0 <= a <= 15 * b && (m > 0 ==> a >= 1) && (m == 0 ==> a == 0)) by (nonlinear_arith)
        requires
            a == m * (120 - r),
            b == r * 8,
            1 <= r < 120,
            0 <= m <= r,
    ;
    assert(0 <= (a + b - 1) / b <= 15 && (a >= 1 ==> (a + b - 1) / b >= 1) && (a == 0 ==> (a + b
        - 1) / b == 0)) by (nonlinear_arith)
        requires
            0 <= a <= 15 * b,
            b >= 1,
    ;
}

/// The push fades with the distance: along each axis it is at most the
/// damped overlap at that distance, rounded up, and it is exactly that
/// where the whole offset lies along the axis.
pub proof fn lemma_push_fades(d: int, r: int)
    requires
        1 <= r < INTERACTION_RADIUS,
        -r <= d <= r,
    ensures
        -ceil_div(INTERACTION_RADIUS - r, DAMPING as int) <= push(d, r) <= ceil_div(
            INTERACTION_RADIUS - r,
            DAMPING as int,
        ),
        d == r ==> push(d, r) == ceil_div(INTERACTION_RADIUS - r, DAMPING as int),
        d == -r ==> push(d, r) == -ceil_div(INTERACTION_RADIUS - r, DAMPING as int),
{
    let m = if d >= 0 { d } else { -d };
    let c = INTERACTION_RADIUS - r;
    let q = ceil_div(c, DAMPING as int);
    let a = m * c;
    let b = r * DAMPING;
    assert(8 * q - 7 <= c <= 8 * q);
    assert(0 <= a <= q * b && (m == r ==> a > (q - 1) * b)) by (nonlinear_arith)
        requires
            a == m * c,
            b == r * 8,
            0 <= m <= r,
            1 <= r,
            1 <= c,
            8 * q - 7 <= c <= 8 * q,
    ;
    assert((a + b - 1) / b <= q && (a > (q - 1) * b ==> (a + b - 1) / b >= q)) by (nonlinear_arith)
        requires
            0 <= a <= q * b,
            b >= 1,
            q >= 1,
    ;
}

/// The offset along either axis is no longer than the distance.
pub proof fn lemma_offset_within_distance(dx: int, dy: int, r: int)
    requires
        is_floor_sqrt(dx * dx + dy * dy, r),
    ensures
        -r <= dx <= r,
        -r <= dy <= r,
{
    assert(-r <= dx <= r && -r <= dy <= r) by (nonlinear_arith)
        requires
            0 <= r,
            dx * dx + dy * dy < (r + 1) * (r + 1),
    ;
}

/// The distance between two distinct points within reach lies from one up
/// to, but not at, the interaction radius.
pub proof fn lemma_distance_in_range(p: Point, q: Point)
    requires
        within_reach(p, q),
        p != q,
    ensures
        1 <= floor_sqrt(distance_squared(p, q) as nat) < INTERACTION_RADIUS,
        is_floor_sqrt(distance_squared(p, q), floor_sqrt(distance_squared(p, q) as nat) as int),
{
    let dx = p.x - q.x;
    let dy = p.y - q.y;
    let sq = distance_squared(p, q);
    assert(sq >= 1) by (nonlinear_arith)
        requires
            sq == dx * dx + dy * dy,
            dx != 0 || dy != 0,
    ;
    lemma_floor_sqrt_exists(sq as nat);
    let r = floor_sqrt(sq as nat) as int;
    if r >= INTERACTION_RADIUS {
        lemma_square_monotone(INTERACTION_RADIUS as int, r);
    }
    if r < 1 {
        assert((r + 1) * (r + 1) == 1);
    }
}

/// Every force that the law gives is at most `MAX_PUSH` long on each axis,
/// whatever the two points are; on the same spot it is exactly that long,
/// along the x axis.
pub proof fn lemma_repulsion_bounded(p: Point, q: Point, forward: bool)
    ensures
        -MAX_PUSH <= repulsion(p, q, forward).x <= MAX_PUSH,
        -MAX_PUSH <= repulsion(p, q, forward).y <= MAX_PUSH,
        p == q ==> repulsion(p, q, forward) == (Force {
            x: if forward { MAX_PUSH } else { (-MAX_PUSH) as i64 },
            y: 0,
        }),
        !within_reach(p, q) ==> repulsion(p, q, forward) == Force::zero(),
{
    let dx = p.x - q.x;
    let dy = p.y - q.y;
    if p == q {
        assert(distance_squared(p, q) == 0);
    } else if within_reach(p, q) {
        lemma_distance_in_range(p, q);
        let r = floor_sqrt(distance_squared(p, q) as nat) as int;
        lemma_offset_within_distance(dx, dy, r);
        lemma_push_bounds(dx, r);
        lemma_push_bounds(dy, r);
    }
}

/// The force fades with the distance: between two distinct points within
/// reach each component is at most the damped overlap at their distance,
/// rounded up, which is one unit just inside the interaction radius.
pub proof fn lemma_repulsion_fades(p: Point, q: Point, forward: bool)
    requires
        within_reach(p, q),
        p != q,
    ensures
        ({
            let r = floor_sqrt(distance_squared(p, q) as nat);
            let most = ceil_div(INTERACTION_RADIUS - r, DAMPING as int);
            &&& -most <= repulsion(p, q, forward).x <= most
            &&& -most <= repulsion(p, q, forward).y <= most
            &&& 1 <= most <= MAX_PUSH
        }),
{
    let dx = p.x - q.x;
    let dy = p.y - q.y;
    lemma_distance_in_range(p, q);
    let r = floor_sqrt(distance_squared(p, q) as nat) as int;
    lemma_offset_within_distance(dx, dy, r);
    lemma_push_bounds(dx, r);
    lemma_push_bounds(dy, r);
    lemma_push_fades(dx, r);
    lemma_push_fades(dy, r);
}

/// The law is a pure repulsion: each component of the force on `p` has the
/// sign of the offset from `q` to `p`, and inside the radius the force is
/// not zero.
pub proof fn lemma_repulsion_points_away(p: Point, q: Point, forward: bool)
    requires
        p != q,
    ensures
        p.x > q.x ==> repulsion(p, q, forward).x >= 0,
        p.x < q.x ==> repulsion(p, q, forward).x <= 0,
        p.x == q.x ==> repulsion(p, q, forward).x == 0,
        p.y > q.y ==> repulsion(p, q, forward).y >= 0,
        p.y < q.y ==> repulsion(p, q, forward).y <= 0,
        p.y == q.y ==> repulsion(p, q, forward).y == 0,
        within_reach(p, q) && p.x > q.x ==> repulsion(p, q, forward).x >= 1,
        within_reach(p, q) && p.x < q.x ==> repulsion(p, q, forward).x <= -1,
        within_reach(p, q) && p.y > q.y ==> repulsion(p, q, forward).y >= 1,
        within_reach(p, q) && p.y < q.y ==> repulsion(p, q, forward).y <= -1,
{
    if within_reach(p, q) {
        let dx = p.x - q.x;
        let dy = p.y - q.y;
        lemma_distance_in_range(p, q);
        let r = floor_sqrt(distance_squared(p, q) as nat) as int;
        lemma_offset_within_distance(dx, dy, r);
        lemma_push_bounds(dx, r);
        lemma_push_bounds(dy, r);
    }
}

/// The distance between two points does not depend on their order.
pub proof fn lemma_distance_symmetric(p: Point, q: Point)
    ensures
        distance_squared(p, q) == distance_squared(q, p),
        within_reach(p, q) == within_reach(q, p),
{
    let dx = p.x - q.x;
    let dy = p.y - q.y;
    assert((-dx) * (-dx) == dx * dx) by (nonlinear_arith);
    assert((-dy) * (-dy) == dy * dy) by (nonlinear_arith);
}

/// Two vertices push each other with forces of equal length and opposite
/// direction: swapping the points, and the side that goes forward, negates
/// both components.
pub proof fn lemma_repulsion_antisymmetric(p: Point, q: Point, forward: bool)
    ensures
        repulsion(q, p, !forward).x == -repulsion(p, q, forward).x,
        repulsion(q, p, !forward).y == -repulsion(p, q, forward).y,
{
    let dx = p.x - q.x;
    let dy = p.y - q.y;
    lemma_distance_symmetric(p, q);
    if p == q {
        assert(distance_squared(p, q) == 0);
    } else if within_reach(p, q) {
        lemma_distance_in_range(p, q);
        let r = floor_sqrt(distance_squared(p, q) as nat) as int;
        lemma_offset_within_distance(dx, dy, r);
        lemma_push_bounds(dx, r);
        lemma_push_bounds(dy, r);
        lemma_push_bounds(-dx, r);
        lemma_push_bounds(-dy, r);
    }
}

/// The quotient of `a` by `b`, rounded up.
fn ceil_quotient(a: i128, b: i128) -> (q: i128)
    requires
        0 <= a <= 0x1_0000_0000,
        0 < b <= 0x1_0000_0000,
    ensures
        q == ceil_div(a as int, b as int),
{
    (a + b - 1) / b
}

/// The displacement along one axis: `push(d, r)`.
fn push_along(d: i128, r: i128) -> (f: i64)
    requires
        1 <= r < INTERACTION_RADIUS,
        -r <= d <= r,
    ensures
        f == push(d as int, r as int),
{
    let overlap: i128 = INTERACTION_RADIUS as i128 - r;
    let damping: i128 = DAMPING as i128;
    assert(r * damping == r * 8) by (nonlinear_arith)
        requires
            damping == 8,
    ;
    let scale: i128 = r * damping;
    proof {
        lemma_push_bounds(d as int, r as int);
        let m = if d >= 0 { d as int } else { -d as int };
        assert(0 <= m * overlap <= 120 * 120) by (nonlinear_arith)
            requires
                0 <= m <= 120,
                0 <= overlap <= 120,
        ;
    }
    if d >= 0 {
        ceil_quotient(d * overlap, scale) as i64
    } else {
        (-ceil_quotient((-d) * overlap, scale)) as i64
    }
}

/// Computes the force on a vertex at `p` from a vertex at `q`.
pub fn repel(p: Point, q: Point, forward: bool) -> (f: Force)
    ensures
        f == repulsion(p, q, forward),
        -MAX_PUSH <= f.x <= MAX_PUSH,
        -MAX_PUSH <= f.y <= MAX_PUSH,
{
    proof {
        lemma_repulsion_bounded(p, q, forward);
    }
    let dx: i128 = p.x as i128 - q.x as i128;
    let dy: i128 = p.y as i128 - q.y as i128;
    let radius: i128 = INTERACTION_RADIUS as i128;
    if dx >= radius || dx <= -radius || dy >= radius || dy <= -radius {
        assert(dx * dx + dy * dy >= 120 * 120) by (nonlinear_arith)
            requires
                dx >= 120 || dx <= -120 || dy >= 120 || dy <= -120,
        ;
        return Force { x: 0, y: 0 };
    }
    assert(0 <= dx * dx <= 120 * 120 && 0 <= dy * dy <= 120 * 120) by (nonlinear_arith)
        requires
            -120 < dx < 120,
            -120 < dy < 120,
    ;
    let square: i128 = dx * dx + dy * dy;
    if square >= radius * radius {
        return Force { x: 0, y: 0 };
    }
    if dx == 0 && dy == 0 {
        return Force { x: if forward { MAX_PUSH } else { -MAX_PUSH }, y: 0 };
    }
    proof {
        lemma_distance_in_range(p, q);
    }
    let r: i128 = isqrt(square as u64) as i128;
    proof {
        lemma_offset_within_distance(dx as int, dy as int, r as int);
    }
    Force { x: push_along(dx, r), y: push_along(dy, r) }
}

} // verus!
