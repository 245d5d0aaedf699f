//! A vertex: a point mass with an identity, a position and the force that
//! has gathered on it during the current tick.

use vstd::prelude::*;
use crate::force::{repel, repulsion, MAX_PUSH};
use crate::vector::{Force, Point};

verus! {

/// One vertex of the layout. Two vertices are equal when all three fields
/// are.
#[derive(Clone, Copy, PartialEq, Eq, Structural, Debug, Hash)]
pub struct Vertex {
    /// The number of vertices that the graph held when this one was made.
    pub id: usize,
    /// Where the vertex is.
    pub position: Point,
    /// The sum of the forces met so far in this tick.
    pub force_accumulator: Force,
}

impl Vertex {
    /// The force that `other` puts on this vertex. Where both are on the
    /// same spot, the one with the smaller id goes backward along the x
    /// axis and the other forward.
    pub open spec fn relate_spec(self, other: Vertex) -> Force {
        repulsion(self.position, other.position, self.id >= other.id)
    }

    /// This vertex with `f` added to what has gathered on it.
    pub open spec fn accumulated(self, f: Force) -> Vertex {
        Vertex { force_accumulator: self.force_accumulator.plus(f), ..self }
    }

    /// This vertex moved by what has gathered on it.
    pub open spec fn integrated(self) -> Vertex {
        Vertex { position: self.position.moved_by(self.force_accumulator), ..self }
    }

    /// A vertex at rest at `position`.
    pub fn new(id: usize, position: Point) -> (v: Vertex)
        ensures
            v == (Vertex { id, position, force_accumulator: Force::zero() }),
    {
        Vertex { id, position, force_accumulator: Force { x: 0, y: 0 } }
    }

    /// Computes the force that `other` puts on this vertex.
    pub fn relate(&self, other: &Vertex) -> (f: Force)
        ensures
            f == self.relate_spec(*other),
            -MAX_PUSH <= f.x <= MAX_PUSH,
            -MAX_PUSH <= f.y <= MAX_PUSH,
    {
        repel(self.position, other.position, self.id >= other.id)
    }

    /// Adds `f` to what has gathered on this vertex.
    pub fn add_acc(&mut self, f: Force)
        ensures
            *final(self) == old(self).accumulated(f),
    {
        self.force_accumulator = self.force_accumulator.combine(f);
    }

    /// Moves the vertex by what has gathered on it: one tick of motion,
    /// with no velocity kept from one tick to the next.
    pub fn update(&mut self)
        ensures
            *final(self) == old(self).integrated(),
    {
        self.position = self.position.displace(self.force_accumulator);
    }
}

impl Default for Vertex {
    /// The vertex with id zero, at rest at the origin.
    fn default() -> (v: Vertex)
        ensures
            v == (Vertex {
                id: 0,
                position: Point { x: 0, y: 0 },
                force_accumulator: Force::zero(),
            }),
    {
        Vertex { id: 0, position: Point { x: 0, y: 0 }, force_accumulator: Force { x: 0, y: 0 } }
    }
}

} // verus!
