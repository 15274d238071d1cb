//! Shapes, as far as the decisions of the engine read them.

use vstd::prelude::*;
use crate::select::{first_max, first_max_index, is_first_max};

verus! {

/// The kind of a shape, without its dimensions.
#[derive(Clone, Copy, PartialEq, Eq, Structural, Debug)]
pub enum ShapeDiscriminant {
    /// A circle.
    Circle,
    /// A convex polygon.
    Polygon,
}

/// The outline of a convex polygon: its vertices are numbered from zero in
/// counter-clockwise order, and edge `i` runs from vertex `i` to the vertex
/// after it, the last edge back to vertex zero.
#[derive(Clone, Copy, PartialEq, Eq, Structural, Debug)]
pub struct Polygon {
    /// The number of vertices, which is also the number of edges and of edge
    /// normals.
    pub vertex_count: usize,
}

impl Polygon {
    /// A polygon has at least three vertices.
    pub open spec fn wf(&self) -> bool {
        self.vertex_count >= 3
    }

    /// Whether edges of the given squared lengths make a polygon that encloses
    /// the given signed area: there are at least three edges, each is longer
    /// than the tolerance, and the area is not zero.
    pub open spec fn admits(edge_lengths_sqr: Seq<i64>, tolerance_sqr: i64, area: i64) -> bool {
        &&& edge_lengths_sqr.len() >= 3
        &&& forall|i: int| 0 <= i < edge_lengths_sqr.len() ==> edge_lengths_sqr[i] > tolerance_sqr
        &&& area != 0
    }

    /// The vertex after vertex `i`, going round.
    pub open spec fn spec_next(&self, i: int) -> int {
        if i + 1 >= self.vertex_count {
            0
        } else {
            i + 1
        }
    }

    /// Whether [`Polygon::new`] accepts these edges and this area.
    pub fn is_outline(edge_lengths_sqr: &Vec<i64>, tolerance_sqr: i64, area: i64) -> (r: bool)
        ensures
            r == Self::admits(edge_lengths_sqr@, tolerance_sqr, area),
    {
        if edge_lengths_sqr.len() < 3 || area == 0 {
            return false;
        }
        let mut i: usize = 0;
        while i < edge_lengths_sqr.len()
            invariant
                i <= edge_lengths_sqr.len(),
                edge_lengths_sqr.len() >= 3,
                area != 0,
                forall|j: int| 0 <= j < i ==> edge_lengths_sqr@[j] > tolerance_sqr,
            decreases edge_lengths_sqr.len() - i,
        {
            if edge_lengths_sqr[i] <= tolerance_sqr {
                return false;
            }
            i += 1;
        }
        true
    }

    /// The polygon with one vertex for each of the given edges, whose squared
    /// lengths have been measured from each vertex to the next, and with the
    /// given signed area.
    pub fn new(edge_lengths_sqr: &Vec<i64>, tolerance_sqr: i64, area: i64) -> (polygon: Polygon)
        requires
            Self::admits(edge_lengths_sqr@, tolerance_sqr, area),
        ensures
            polygon.vertex_count == edge_lengths_sqr.len(),
            polygon.wf(),
    {
        Polygon { vertex_count: edge_lengths_sqr.len() }
    }

    /// The vertex at which edge `i` ends.
    pub fn next(&self, i: usize) -> (n: usize)
        requires
            i < self.vertex_count,
        ensures
            n == self.spec_next(i as int),
            n < self.vertex_count,
    {
        if i + 1 >= self.vertex_count {
            0
        } else {
            i + 1
        }
    }

    /// The support point in one direction: the vertex whose projection on the
    /// direction is greatest, and of several such the first.
    /// `projections[j]` is the projection of vertex `j`.
    pub fn find_support(&self, projections: &Vec<i64>) -> (vertex: usize)
        requires
            self.wf(),
            projections.len() == self.vertex_count,
        ensures
            is_first_max(projections@, vertex as int),
            vertex == first_max(projections@),
    {
        first_max_index(projections)
    }

    /// The kind of this shape.
    pub fn discriminant(&self) -> (d: ShapeDiscriminant)
        ensures
            d == ShapeDiscriminant::Polygon,
    {
        ShapeDiscriminant::Polygon
    }
}

/// A shape: one of the two kinds, with what the decisions read of it.
#[derive(Clone, Copy, PartialEq, Eq, Structural, Debug)]
pub enum Shapes {
    /// A circle.
    Circle,
    /// A convex polygon.
    Polygon(Polygon),
}

impl Shapes {
    /// The kind of a shape.
    pub open spec fn spec_discriminant(&self) -> ShapeDiscriminant {
        match *self {
            Shapes::Circle => ShapeDiscriminant::Circle,
            Shapes::Polygon(_) => ShapeDiscriminant::Polygon,
        }
    }

    /// The kind of this shape.
    pub fn discriminant(&self) -> (d: ShapeDiscriminant)
        ensures
            d == self.spec_discriminant(),
    {
        match self {
            Shapes::Circle => ShapeDiscriminant::Circle,
            Shapes::Polygon(p) => p.discriminant(),
        }
    }
}

} // verus!
