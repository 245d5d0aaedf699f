//! The graph: the vertices in the order of their creation, and the only
//! place where ids are given out.

use vstd::prelude::*;
use crate::simulation::{advance, dense_ids, positions_of, step, Drag};
use crate::vector::{Force, Point};
use crate::vertex::Vertex;

verus! {

/// An ordered, growing collection of vertices. The id of a vertex is its
/// place in the order, so the size of the graph is the next id.
pub struct Graph {
    vertices: Vec<Vertex>,
}

impl View for Graph {
    type V = Seq<Vertex>;

    closed spec fn view(&self) -> Seq<Vertex> {
        self.vertices@
    }
}

impl Graph {
    /// The invariant of the graph: ids are dense, starting at zero.
    pub open spec fn well_formed(&self) -> bool {
        dense_ids(self@)
    }

    /// The graph without vertices.
    pub fn new() -> (g: Graph)
        ensures
            g@ == Seq::<Vertex>::empty(),
            g.well_formed(),
    {
        Graph { vertices: Vec::new() }
    }

    /// The number of vertices, which is also the id of the next one.
    pub fn size(&self) -> (n: usize)
        ensures
            n == self@.len(),
    {
        self.vertices.len()
    }

    /// Appends a vertex at rest at `position`, with the size of the graph
    /// as its id, and returns a copy of it.
    pub fn create_vertex(&mut self, position: Point) -> (v: Vertex)
        requires
            old(self).well_formed(),
        ensures
            v == (Vertex {
                id: old(self)@.len() as usize,
                position,
                force_accumulator: Force::zero(),
            }),
            final(self)@ == old(self)@.push(v),
            final(self).well_formed(),
    {
        let v = Vertex::new(self.vertices.len(), position);
        self.vertices.push(v);
        v
    }

    /// The vertex with the given id, if the graph holds one.
    pub fn vertex(&self, id: usize) -> (v: Option<Vertex>)
        ensures
            v == if id < self@.len() {
                Some(self@[id as int])
            } else {
                None
            },
    {
        if id < self.vertices.len() {
            Some(self.vertices[id])
        } else {
            None
        }
    }

    /// The vertices in the order of their creation.
    pub fn vertices(&self) -> (vs: &Vec<Vertex>)
        ensures
            vs@ == self@,
    {
        &self.vertices
    }

    /// The position of every vertex, in the order of their creation.
    pub fn positions(&self) -> (ps: Vec<Point>)
        ensures
            ps@ == positions_of(self@),
    {
        let mut ps: Vec<Point> = Vec::new();
        let n = self.vertices.len();
        let mut i: usize = 0;
        while i < n
            invariant
                i <= n,
                n == self.vertices@.len(),
                ps@.len() == i,
                forall|k: int| 0 <= k < i ==> (#[trigger] ps@[k]) == self.vertices@[k].position,
            decreases n - i,
        {
            ps.push(self.vertices[i].position);
            i += 1;
        }
        assert(ps@ =~= positions_of(self@));
        ps
    }

    /// Puts the vertex with the given id at `position`, and says whether the
    /// graph holds such a vertex. Nothing else changes.
    pub fn set_position(&mut self, id: usize, position: Point) -> (found: bool)
        requires
            old(self).well_formed(),
        ensures
            found == (id < old(self)@.len()),
            found ==> final(self)@ == old(self)@.update(
                id as int,
                Vertex { position, ..old(self)@[id as int] },
            ),
            !found ==> final(self)@ == old(self)@,
            final(self).well_formed(),
    {
        if id < self.vertices.len() {
            let mut v = self.vertices[id];
            v.position = position;
            self.vertices[id] = v;
            true
        } else {
            false
        }
    }

    /// Runs one tick: takes the drags in, sums the forces on every vertex
    /// from all the others as the drags left them, and moves every vertex
    /// by its sum. Returns the new positions for drawing.
    pub fn tick(&mut self, drags: &Vec<Drag>) -> (emitted: Vec<Point>)
        requires
            old(self).well_formed(),
        ensures
            final(self)@ == step(old(self)@, drags@),
            final(self).well_formed(),
            emitted@ == positions_of(final(self)@),
    {
        advance(&mut self.vertices, drags)
    }
}

} // verus!
