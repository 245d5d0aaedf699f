//! What holds of the layout as a whole: how ids are given out, which forces
//! a vertex gathers, how two vertices push each other, how a drag takes
//! precedence, and how a pair of vertices comes to rest.

use vstd::prelude::*;
use crate::force::{
    distance_squared, lemma_distance_symmetric, lemma_repulsion_antisymmetric,
    lemma_repulsion_bounded, lemma_repulsion_points_away, repulsion, within_reach,
    INTERACTION_RADIUS, MAX_PUSH,
};
use crate::simulation::{
    dense_ids, dragged_to, ingest, others_before, relax, settled, step, total_force, Drag,
};
use crate::vector::{saturate, Force, Point};
use crate::vertex::Vertex;

verus! {

/// The vertices after one vertex has been created at each of `places` in
/// turn, starting from `vs`.
pub open spec fn grown(vs: Seq<Vertex>, places: Seq<Point>) -> Seq<Vertex>
    decreases places.len(),
{
    if places.len() == 0 {
        vs
    } else {
        let earlier = grown(vs, places.drop_last());
        earlier.push(
            Vertex {
                id: earlier.len() as usize,
                position: places.last(),
                force_accumulator: Force::zero(),
            },
        )
    }
}

/// The vertices after the given number of ticks without any drag.
pub open spec fn run(vs: Seq<Vertex>, ticks: nat) -> Seq<Vertex>
    decreases ticks,
{
    if ticks == 0 {
        vs
    } else {
        step(run(vs, (ticks - 1) as nat), Seq::empty())
    }
}

/// The sum, with unbounded integers, of the forces on vertex `i` from the
/// vertices before index `k`, vertex `i` itself left out.
pub open spec fn exact_sum(s: Seq<Vertex>, i: int, k: int) -> (int, int)
    decreases k,
{
    if k <= 0 {
        (0, 0)
    } else {
        let (x, y) = exact_sum(s, i, k - 1);
        if k - 1 == i {
            (x, y)
        } else {
            let f = s[i].relate_spec(s[k - 1]);
            (x + f.x, y + f.y)
        }
    }
}

/// The distance between two coordinates.
pub open spec fn gap(u: int, v: int) -> int {
    if u >= v {
        u - v
    } else {
        v - u
    }
}

/// The separation of two points: the sum of their distances along the two
/// axes.
pub open spec fn spread(p: Point, q: Point) -> int {
    gap(p.x as int, q.x as int) + gap(p.y as int, q.y as int)
}

/// Whether `vs` holds exactly two vertices, with the ids zero and one.
pub open spec fn is_pair(vs: Seq<Vertex>) -> bool {
    vs.len() == 2 && dense_ids(vs)
}

/// The number of ticks after which any pair of vertices is at rest.
pub open spec fn settling_ticks() -> nat {
    (2 * INTERACTION_RADIUS) as nat
}

/// Ids follow the order of creation: after any number of creations the
/// vertex created as number `i` has the id `i` and the position it was
/// created at, and every vertex that was there before is unchanged.
pub proof fn lemma_ids_follow_creation(vs: Seq<Vertex>, places: Seq<Point>)
    requires
        dense_ids(vs),
        vs.len() + places.len() <= usize::MAX,
    ensures
        grown(vs, places).len() == vs.len() + places.len(),
        dense_ids(grown(vs, places)),
        forall|i: int| 0 <= i < vs.len() ==> (#[trigger] grown(vs, places)[i]) == vs[i],
        forall|i: int|
            0 <= i < places.len() ==> (#[trigger] grown(vs, places)[vs.len() + i]) == (Vertex {
                id: (vs.len() + i) as usize,
                position: places[i],
                force_accumulator: Force::zero(),
            }),
    decreases places.len(),
{
    if places.len() > 0 {
        lemma_ids_follow_creation(vs, places.drop_last());
    }
}

/// A tick neither adds nor removes a vertex, and gives no vertex another
/// id.
pub proof fn lemma_tick_keeps_ids(vs: Seq<Vertex>, drags: Seq<Drag>)
    ensures
        step(vs, drags).len() == vs.len(),
        forall|i: int| 0 <= i < vs.len() ==> (#[trigger] step(vs, drags)[i]).id == vs[i].id,
        dense_ids(vs) ==> dense_ids(step(vs, drags)),
{
}

/// The force that a vertex gathers in a tick is the plain sum of the forces
/// from the vertices at the other indices: its own entry of the snapshot
/// adds nothing, and in a graph that fits into memory no sum saturates.
pub proof fn lemma_net_force_is_sum_over_others(s: Seq<Vertex>, i: int)
    requires
        0 <= i < s.len(),
        s.len() * MAX_PUSH <= i64::MAX,
    ensures
        total_force(s[i], s.remove(i)).x == exact_sum(s, i, s.len() as int).0,
        total_force(s[i], s.remove(i)).y == exact_sum(s, i, s.len() as int).1,
{
    lemma_partial_sums(s, i, s.len() as int);
    assert(others_before(s, i, s.len() as int) == s.remove(i));
}

/// The sum over the vertices before index `k`, the one at index `i` left
/// out, does not saturate.
proof fn lemma_partial_sums(s: Seq<Vertex>, i: int, k: int)
    requires
        0 <= i < s.len(),
        0 <= k <= s.len(),
        s.len() * MAX_PUSH <= i64::MAX,
    ensures
        total_force(s[i], others_before(s, i, k)).x == exact_sum(s, i, k).0,
        total_force(s[i], others_before(s, i, k)).y == exact_sum(s, i, k).1,
        -k * MAX_PUSH <= exact_sum(s, i, k).0 <= k * MAX_PUSH,
        -k * MAX_PUSH <= exact_sum(s, i, k).1 <= k * MAX_PUSH,
    decreases k,
{
    if k > 0 {
        let j = k - 1;
        lemma_partial_sums(s, i, j);
        if j == i {
            assert(others_before(s, i, k) == others_before(s, i, j));
        } else {
            let now = others_before(s, i, k);
            assert(now.drop_last() == others_before(s, i, j));
            assert(now.last() == s[j]);
            lemma_repulsion_bounded(s[i].position, s[j].position, s[i].id >= s[j].id);
        }
    } else {
        assert(others_before(s, i, k).len() == 0);
    }
}

/// What stands at a vertex's own place in the snapshot has no part in the
/// force that the vertex gathers.
pub proof fn lemma_own_entry_adds_nothing(s: Seq<Vertex>, i: int, v: Vertex, w: Vertex)
    requires
        0 <= i < s.len(),
    ensures
        total_force(v, s.update(i, w).remove(i)) == total_force(v, s.remove(i)),
{
    assert(s.update(i, w).remove(i) =~= s.remove(i));
}

/// A vertex that is alone gathers no force and stays where the drags left
/// it.
pub proof fn lemma_alone_feels_nothing(vs: Seq<Vertex>, drags: Seq<Drag>)
    requires
        vs.len() == 1,
    ensures
        step(vs, drags)[0].force_accumulator == Force::zero(),
        step(vs, drags)[0].position == dragged_to(drags, vs[0].id, vs[0].position),
{
    let snapshot = ingest(vs, drags);
    assert(snapshot.remove(0).len() == 0);
}

/// The force between two vertices is at most `MAX_PUSH` long on each axis,
/// also where they are on the same spot: there it is exactly that long,
/// along the x axis.
pub proof fn lemma_relate_is_bounded(v: Vertex, w: Vertex)
    ensures
        -MAX_PUSH <= v.relate_spec(w).x <= MAX_PUSH,
        -MAX_PUSH <= v.relate_spec(w).y <= MAX_PUSH,
        v.position == w.position ==> v.relate_spec(w).y == 0 && v.relate_spec(w).x == (if v.id
            >= w.id {
            MAX_PUSH as int
        } else {
            -MAX_PUSH
        }),
{
    lemma_repulsion_bounded(v.position, w.position, v.id >= w.id);
}

/// Two vertices push each other with forces of equal length and opposite
/// direction, unless they are on the same spot and have the same id.
pub proof fn lemma_relate_is_antisymmetric(v: Vertex, w: Vertex)
    requires
        v.position != w.position || v.id != w.id,
    ensures
        w.relate_spec(v).x == -v.relate_spec(w).x,
        w.relate_spec(v).y == -v.relate_spec(w).y,
{
    lemma_repulsion_antisymmetric(v.position, w.position, v.id >= w.id);
    if v.id == w.id {
        lemma_repulsion_antisymmetric(v.position, w.position, false);
        lemma_distance_symmetric(v.position, w.position);
    }
}

/// A drag takes precedence: the snapshot from which a tick computes all its
/// forces has vertex `id` at the position of the last drag that names it.
pub proof fn lemma_drag_takes_precedence(vs: Seq<Vertex>, drags: Seq<Drag>, k: int)
    requires
        dense_ids(vs),
        0 <= k < drags.len(),
        drags[k].id < vs.len(),
        forall|j: int| k < j < drags.len() ==> drags[j].id != drags[k].id,
    ensures
        ingest(vs, drags)[drags[k].id as int].position == drags[k].position,
        step(vs, drags) == relax(ingest(vs, drags)),
{
    let id = drags[k].id;
    lemma_last_drag_wins(drags, k, vs[id as int].position);
}

/// The last drag that names a vertex says where the vertex is.
proof fn lemma_last_drag_wins(drags: Seq<Drag>, k: int, rest: Point)
    requires
        0 <= k < drags.len(),
        forall|j: int| k < j < drags.len() ==> drags[j].id != drags[k].id,
    ensures
        dragged_to(drags, drags[k].id, rest) == drags[k].position,
    decreases drags.len(),
{
    if k < drags.len() - 1 {
        lemma_last_drag_wins(drags.drop_last(), k, rest);
    }
}

/// A vertex that no drag names enters the tick where the last tick left it.
pub proof fn lemma_undragged_stays(vs: Seq<Vertex>, drags: Seq<Drag>, i: int)
    requires
        0 <= i < vs.len(),
        forall|j: int| 0 <= j < drags.len() ==> drags[j].id != vs[i].id,
    ensures
        ingest(vs, drags)[i].position == vs[i].position,
{
    lemma_no_drag_no_move(drags, vs[i].id, vs[i].position);
}

/// Drags that do not name a vertex leave it where it is.
proof fn lemma_no_drag_no_move(drags: Seq<Drag>, id: usize, rest: Point)
    requires
        forall|j: int| 0 <= j < drags.len() ==> drags[j].id != id,
    ensures
        dragged_to(drags, id, rest) == rest,
    decreases drags.len(),
{
    if drags.len() > 0 {
        lemma_no_drag_no_move(drags.drop_last(), id, rest);
    }
}

/// Along one axis a pair spreads or stays: when the first vertex is moved
/// by `f` and the second by `-f`, a repulsion between coordinates closer
/// than the interaction radius keeps their order and never brings them
/// nearer, even where one of them saturates.
pub proof fn lemma_axis_spreads(a: i64, b: i64, f: int)
    requires
        -MAX_PUSH <= f <= MAX_PUSH,
        a > b ==> f >= 0,
        a < b ==> f <= 0,
        gap(a as int, b as int) < INTERACTION_RADIUS,
    ensures
        gap(saturate(a + f), saturate(b - f)) >= gap(a as int, b as int),
        gap(saturate(a + f), saturate(b - f)) <= gap(a as int, b as int) + 2 * MAX_PUSH,
        f != 0 ==> gap(saturate(a + f), saturate(b - f)) > gap(a as int, b as int),
        f == 0 ==> saturate(a + f) == a && saturate(b - f) == b,
{
}

/// The squared distance of two points, from their distances along the
/// axes.
pub proof fn lemma_distance_from_gaps(p: Point, q: Point)
    ensures
        distance_squared(p, q) == gap(p.x as int, q.x as int) * gap(p.x as int, q.x as int) + gap(
            p.y as int,
            q.y as int,
        ) * gap(p.y as int, q.y as int),
        within_reach(p, q) ==> gap(p.x as int, q.x as int) < INTERACTION_RADIUS && gap(
            p.y as int,
            q.y as int,
        ) < INTERACTION_RADIUS,
        spread(p, q) >= 2 * INTERACTION_RADIUS ==> !within_reach(p, q),
{
    let dx = p.x - q.x;
    let dy = p.y - q.y;
    let gx = gap(p.x as int, q.x as int);
    let gy = gap(p.y as int, q.y as int);
    assert(gx * gx == dx * dx) by (nonlinear_arith)
        requires
            gx == dx || gx == -dx,
    ;
    assert(gy * gy == dy * dy) by (nonlinear_arith)
        requires
            gy == dy || gy == -dy,
    ;
    assert(gx * gx + gy * gy < 120 * 120 ==> gx < 120 && gy < 120) by (nonlinear_arith)
        requires
            gx >= 0,
            gy >= 0,
    ;
}

/// One tick of a pair. Out of each other's reach both vertices rest. Within
/// reach they move apart: along neither axis do they come nearer, their
/// separation and their distance grow strictly, and along each axis they
/// part by at most twice `MAX_PUSH`.
pub proof fn lemma_pair_spreads(vs: Seq<Vertex>)
    requires
        is_pair(vs),
    ensures
        is_pair(step(vs, Seq::empty())),
        !within_reach(vs[0].position, vs[1].position) ==> {
            &&& step(vs, Seq::empty())[0].position == vs[0].position
            &&& step(vs, Seq::empty())[1].position == vs[1].position
        },
        within_reach(vs[0].position, vs[1].position) ==> {
            let p = vs[0].position;
            let q = vs[1].position;
            let p2 = step(vs, Seq::empty())[0].position;
            let q2 = step(vs, Seq::empty())[1].position;
            &&& gap(p.x as int, q.x as int) <= gap(p2.x as int, q2.x as int) <= gap(
                p.x as int,
                q.x as int,
            ) + 2 * MAX_PUSH
            &&& gap(p.y as int, q.y as int) <= gap(p2.y as int, q2.y as int) <= gap(
                p.y as int,
                q.y as int,
            ) + 2 * MAX_PUSH
            &&& spread(p2, q2) > spread(p, q)
            &&& distance_squared(p2, q2) > distance_squared(p, q)
        },
{
    let none = Seq::<Drag>::empty();
    let snapshot = ingest(vs, none);
    let v = snapshot[0];
    let w = snapshot[1];
    let p = vs[0].position;
    let q = vs[1].position;
    assert(v.position == p && w.position == q && v.id == 0 && w.id == 1);
    lemma_tick_keeps_ids(vs, none);
    lemma_pair_forces(snapshot);
    let f = v.relate_spec(w);
    assert(step(vs, none)[0] == settled(snapshot, 0));
    assert(step(vs, none)[1] == settled(snapshot, 1));
    let p2 = step(vs, none)[0].position;
    let q2 = step(vs, none)[1].position;
    lemma_repulsion_bounded(p, q, false);
    if within_reach(p, q) {
        lemma_distance_from_gaps(p, q);
        lemma_distance_from_gaps(p2, q2);
        if p == q {
            assert(f.x == -MAX_PUSH && f.y == 0);
        } else {
            lemma_repulsion_points_away(p, q, false);
        }
        lemma_axis_spreads(p.x, q.x, f.x as int);
        lemma_axis_spreads(p.y, q.y, f.y as int);
        let gx = gap(p.x as int, q.x as int);
        let gy = gap(p.y as int, q.y as int);
        let hx = gap(p2.x as int, q2.x as int);
        let hy = gap(p2.y as int, q2.y as int);
        assert(hx * hx + hy * hy > gx * gx + gy * gy) by (nonlinear_arith)
            requires
                0 <= gx <= hx,
                0 <= gy <= hy,
                gx + gy < hx + hy,
        ;
    }
}

/// In a snapshot of two vertices each gathers just the force from the
/// other, and the two forces are opposite.
proof fn lemma_pair_forces(snapshot: Seq<Vertex>)
    requires
        is_pair(snapshot),
        snapshot[0].force_accumulator == Force::zero(),
        snapshot[1].force_accumulator == Force::zero(),
    ensures
        settled(snapshot, 0).position == snapshot[0].position.moved_by(
            snapshot[0].relate_spec(snapshot[1]),
        ),
        settled(snapshot, 1).position.x == saturate(
            snapshot[1].position.x - snapshot[0].relate_spec(snapshot[1]).x,
        ),
        settled(snapshot, 1).position.y == saturate(
            snapshot[1].position.y - snapshot[0].relate_spec(snapshot[1]).y,
        ),
{
    let v = snapshot[0];
    let w = snapshot[1];
    lemma_relate_is_bounded(v, w);
    lemma_relate_is_bounded(w, v);
    lemma_relate_is_antisymmetric(v, w);
    let after_v = snapshot.remove(0);
    let after_w = snapshot.remove(1);
    assert(after_v.len() == 1 && after_v.last() == w);
    assert(after_w.len() == 1 && after_w.last() == v);
    assert(after_v.drop_last().len() == 0);
    assert(after_w.drop_last().len() == 0);
    assert(total_force(v, after_v.drop_last()) == Force::zero());
    assert(total_force(w, after_w.drop_last()) == Force::zero());
    assert(total_force(v, after_v) == v.relate_spec(w));
    assert(total_force(w, after_w) == w.relate_spec(v));
}

/// Once a pair is out of each other's reach, no number of ticks moves it.
pub proof fn lemma_rest_is_kept(vs: Seq<Vertex>, ticks: nat)
    requires
        is_pair(vs),
        !within_reach(vs[0].position, vs[1].position),
    ensures
        is_pair(run(vs, ticks)),
        run(vs, ticks)[0].position == vs[0].position,
        run(vs, ticks)[1].position == vs[1].position,
    decreases ticks,
{
    if ticks > 0 {
        lemma_rest_is_kept(vs, (ticks - 1) as nat);
        lemma_pair_spreads(run(vs, (ticks - 1) as nat));
    }
}

/// While a pair is within reach, every tick adds to its separation.
proof fn lemma_pair_progress(vs: Seq<Vertex>, ticks: nat)
    requires
        is_pair(vs),
    ensures
        is_pair(run(vs, ticks)),
        within_reach(run(vs, ticks)[0].position, run(vs, ticks)[1].position) ==> spread(
            run(vs, ticks)[0].position,
            run(vs, ticks)[1].position,
        ) >= ticks,
        gap(run(vs, ticks)[0].position.x as int, run(vs, ticks)[1].position.x as int) >= gap(
            vs[0].position.x as int,
            vs[1].position.x as int,
        ),
        gap(run(vs, ticks)[0].position.y as int, run(vs, ticks)[1].position.y as int) >= gap(
            vs[0].position.y as int,
            vs[1].position.y as int,
        ),
    decreases ticks,
{
    if ticks > 0 {
        let earlier = run(vs, (ticks - 1) as nat);
        lemma_pair_progress(vs, (ticks - 1) as nat);
        lemma_pair_spreads(earlier);
        if !within_reach(earlier[0].position, earlier[1].position) {
            assert(run(vs, ticks)[0].position == earlier[0].position);
            assert(run(vs, ticks)[1].position == earlier[1].position);
        }
    }
}

/// A pair comes to rest: however close the two vertices start, also on the
/// same spot, after `settling_ticks()` ticks without a drag they are out of
/// each other's reach, and no later tick moves either of them.
pub proof fn lemma_pair_settles(vs: Seq<Vertex>, later: nat)
    requires
        is_pair(vs),
    ensures
        !within_reach(
            run(vs, settling_ticks())[0].position,
            run(vs, settling_ticks())[1].position,
        ),
        run(vs, settling_ticks() + later)[0].position == run(vs, settling_ticks())[0].position,
        run(vs, settling_ticks() + later)[1].position == run(vs, settling_ticks())[1].position,
{
    let rested = run(vs, settling_ticks());
    lemma_pair_progress(vs, settling_ticks());
    lemma_distance_from_gaps(rested[0].position, rested[1].position);
    lemma_rest_is_kept(rested, later);
    lemma_run_adds(vs, settling_ticks(), later);
}

/// Running some ticks and then some more is running them all.
pub proof fn lemma_run_adds(vs: Seq<Vertex>, first: nat, then_more: nat)
    ensures
        run(vs, first + then_more) == run(run(vs, first), then_more),
    decreases then_more,
{
    if then_more > 0 {
        lemma_run_adds(vs, first, (then_more - 1) as nat);
    }
}

/// A pair does not fly apart: along each axis the two vertices are never
/// farther from each other than they were at the start, or than the
/// interaction radius and one last push on each of them.
pub proof fn lemma_pair_stays_bounded(vs: Seq<Vertex>, ticks: nat)
    requires
        is_pair(vs),
    ensures
        is_pair(run(vs, ticks)),
        gap(run(vs, ticks)[0].position.x as int, run(vs, ticks)[1].position.x as int) <= gap(
            vs[0].position.x as int,
            vs[1].position.x as int,
        ) || gap(run(vs, ticks)[0].position.x as int, run(vs, ticks)[1].position.x as int)
            < INTERACTION_RADIUS + 2 * MAX_PUSH,
        gap(run(vs, ticks)[0].position.y as int, run(vs, ticks)[1].position.y as int) <= gap(
            vs[0].position.y as int,
            vs[1].position.y as int,
        ) || gap(run(vs, ticks)[0].position.y as int, run(vs, ticks)[1].position.y as int)
            < INTERACTION_RADIUS + 2 * MAX_PUSH,
    decreases ticks,
{
    if ticks > 0 {
        let earlier = run(vs, (ticks - 1) as nat);
        lemma_pair_stays_bounded(vs, (ticks - 1) as nat);
        lemma_pair_spreads(earlier);
        lemma_distance_from_gaps(earlier[0].position, earlier[1].position);
    }
}

} // verus!
