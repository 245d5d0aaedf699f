//! One tick of the simulation, as a function from the vertices before the
//! tick and the drags that arrived to the vertices after it.
//!
//! A tick takes the drags in, freezes the result as a snapshot, sums for
//! each vertex the forces from every other vertex of the snapshot, and
//! moves each vertex by its sum.

use vstd::prelude::*;
use crate::vector::{Force, Point};
use crate::vertex::Vertex;

verus! {

/// The report that the user holds vertex `id` at `position`.
#[derive(Clone, Copy, PartialEq, Eq, Structural, Debug, Hash)]
pub struct Drag {
    pub id: usize,
    pub position: Point,
}

/// Whether each vertex has its index as its id.
pub open spec fn dense_ids(vs: Seq<Vertex>) -> bool {
    forall|i: int| 0 <= i < vs.len() ==> (#[trigger] vs[i]).id == i
}

/// Where vertex `id` is after the drags: at the position of the last drag
/// that names it, or at `rest` where none does.
pub open spec fn dragged_to(drags: Seq<Drag>, id: usize, rest: Point) -> Point
    decreases drags.len(),
{
    if drags.len() == 0 {
        rest
    } else if drags.last().id == id {
        drags.last().position
    } else {
        dragged_to(drags.drop_last(), id, rest)
    }
}

/// The snapshot of a tick: every vertex where the drags left it, with
/// nothing gathered on it yet.
pub open spec fn ingest(vs: Seq<Vertex>, drags: Seq<Drag>) -> Seq<Vertex> {
    Seq::new(
        vs.len(),
        |i: int|
            Vertex {
                id: vs[i].id,
                position: dragged_to(drags, vs[i].id, vs[i].position),
                force_accumulator: Force::zero(),
            },
    )
}

/// The sum of the forces that the vertices of `others` put on `v`, taken
/// in their order.
pub open spec fn total_force(v: Vertex, others: Seq<Vertex>) -> Force
    decreases others.len(),
{
    if others.len() == 0 {
        Force::zero()
    } else {
        total_force(v, others.drop_last()).plus(v.relate_spec(others.last()))
    }
}

/// Vertex `i` of the snapshot at the end of the tick: moved by the sum of
/// the forces from all the vertices of the snapshot but itself.
pub open spec fn settled(snapshot: Seq<Vertex>, i: int) -> Vertex {
    snapshot[i].accumulated(total_force(snapshot[i], snapshot.remove(i))).integrated()
}

/// The vertices after a tick without any drag.
pub open spec fn relax(snapshot: Seq<Vertex>) -> Seq<Vertex> {
    Seq::new(snapshot.len(), |i: int| settled(snapshot, i))
}

/// The vertices after a tick in which `drags` arrived.
pub open spec fn step(vs: Seq<Vertex>, drags: Seq<Drag>) -> Seq<Vertex> {
    relax(ingest(vs, drags))
}

/// The positions of the vertices, in their order.
pub open spec fn positions_of(vs: Seq<Vertex>) -> Seq<Point> {
    Seq::new(vs.len(), |i: int| vs[i].position)
}

/// The vertices of `s` before index `j`, but for the one at index `i`.
pub open spec fn others_before(s: Seq<Vertex>, i: int, j: int) -> Seq<Vertex> {
    if j <= i {
        s.take(j)
    } else {
        s.take(j).remove(i)
    }
}

/// Takes the drags in: every vertex that a drag names goes where its last
/// drag says, and all accumulators are emptied. A drag that names no
/// vertex of the graph changes nothing.
pub fn ingest_drags(vertices: &mut Vec<Vertex>, drags: &Vec<Drag>)
    requires
        dense_ids(old(vertices)@),
    ensures
        final(vertices)@ == ingest(old(vertices)@, drags@),
        dense_ids(final(vertices)@),
{
    let ghost before = vertices@;
    let n = vertices.len();
    let mut k: usize = 0;
    while k < drags.len()
        invariant
            k <= drags.len(),
            vertices.len() == n,
            before.len() == n,
            dense_ids(before),
            forall|i: int|
                0 <= i < n ==> (#[trigger] vertices@[i]) == (Vertex {
                    position: dragged_to(drags@.take(k as int), before[i].id, before[i].position),
                    ..before[i]
                }),
        decreases drags.len() - k,
    {
        let drag = drags[k];
        proof {
            assert(drags@.take(k + 1).drop_last() == drags@.take(k as int));
            assert(drags@.take(k + 1).last() == drag);
        }
        if drag.id < n {
            let mut v = vertices[drag.id];
            v.position = drag.position;
            vertices[drag.id] = v;
        }
        k += 1;
    }
    assert(drags@.take(k as int) == drags@);
    let mut i: usize = 0;
    while i < n
        invariant
            i <= n,
            vertices.len() == n,
            before.len() == n,
            forall|j: int| 0 <= j < i ==> (#[trigger] vertices@[j]) == ingest(before, drags@)[j],
            forall|j: int|
                i <= j < n ==> (#[trigger] vertices@[j]) == (Vertex {
                    position: dragged_to(drags@, before[j].id, before[j].position),
                    ..before[j]
                }),
        decreases n - i,
    {
        let mut v = vertices[i];
        v.force_accumulator = Force { x: 0, y: 0 };
        vertices[i] = v;
        i += 1;
    }
    assert(vertices@ =~= ingest(before, drags@));
}

/// Sums the forces that all the vertices of the snapshot but vertex `i`
/// put on vertex `i`. A vertex is left out when it equals vertex `i` in
/// all its fields, which only vertex `i` itself does.
pub fn net_force(snapshot: &Vec<Vertex>, i: usize) -> (f: Force)
    requires
        i < snapshot.len(),
        dense_ids(snapshot@),
    ensures
        f == total_force(snapshot@[i as int], snapshot@.remove(i as int)),
{
    let me = snapshot[i];
    let n = snapshot.len();
    let mut sum = Force { x: 0, y: 0 };
    let mut j: usize = 0;
    while j < n
        invariant
            j <= n,
            i < n,
            n == snapshot.len(),
            me == snapshot@[i as int],
            dense_ids(snapshot@),
            sum == total_force(me, others_before(snapshot@, i as int, j as int)),
        decreases n - j,
    {
        let other = snapshot[j];
        if other == me {
            assert(j == i);
            assert(others_before(snapshot@, i as int, j + 1) == others_before(
                snapshot@,
                i as int,
                j as int,
            ));
        } else {
            assert(j != i);
            proof {
                let grown = others_before(snapshot@, i as int, j + 1);
                assert(grown.drop_last() == others_before(snapshot@, i as int, j as int));
                assert(grown.last() == other);
            }
            let f = me.relate(&other);
            sum = sum.combine(f);
        }
        j += 1;
    }
    assert(others_before(snapshot@, i as int, n as int) == snapshot@.remove(i as int));
    sum
}

/// Runs one tick on the vertices: takes the drags in, then moves every
/// vertex by the forces that the others, as the drags left them, put on it.
/// Returns the new positions, in the order of the vertices.
pub fn advance(vertices: &mut Vec<Vertex>, drags: &Vec<Drag>) -> (emitted: Vec<Point>)
    requires
        dense_ids(old(vertices)@),
    ensures
        final(vertices)@ == step(old(vertices)@, drags@),
        dense_ids(final(vertices)@),
        emitted@ == positions_of(final(vertices)@),
{
    ingest_drags(vertices, drags);
    let ghost snapshot = vertices@;
    let n = vertices.len();
    let mut next: Vec<Vertex> = Vec::new();
    let mut emitted: Vec<Point> = Vec::new();
    let mut i: usize = 0;
    while i < n
        invariant
            i <= n,
            n == snapshot.len(),
            vertices@ == snapshot,
            dense_ids(snapshot),
            next@.len() == i,
            emitted@.len() == i,
            forall|k: int| 0 <= k < i ==> (#[trigger] next@[k]) == settled(snapshot, k),
            forall|k: int| 0 <= k < i ==> (#[trigger] emitted@[k]) == next@[k].position,
        decreases n - i,
    {
        let mut v = vertices[i];
        let f = net_force(vertices, i);
        v.add_acc(f);
        v.update();
        next.push(v);
        emitted.push(v.position);
        i += 1;
    }
    assert(next@ =~= relax(snapshot));
    assert(emitted@ =~= positions_of(next@));
    *vertices = next;
    emitted
}

} // verus!
