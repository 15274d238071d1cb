//! The decisions of the narrow phase: given what was measured of a pair of
//! shapes, whether they touch, at which feature, and in how many points.
//!
//! Every measurement is handed over by its rank (see [`crate::rank`]).

use vstd::prelude::*;
use crate::manifold::Manifold;
use crate::select::{
    first_max,
    first_min,
    first_min_index,
    is_first_max,
    lemma_first_max_exists,
    lemma_first_max_unique,
};
use crate::shapes::Polygon;

verus! {

/// How two circles lie to each other.
#[derive(Clone, Copy, PartialEq, Eq, Structural, Debug)]
pub enum CircleCircle {
    /// The circles do not overlap: no contact.
    Apart,
    /// The centres coincide: one contact at the centre, with a fixed normal
    /// and the radius of the first circle for the penetration.
    Coincident,
    /// The circles overlap and their centres differ: one contact on the line
    /// through the centres.
    Overlapping,
}

impl CircleCircle {
    /// The number of contact points.
    pub open spec fn contact_count(self) -> nat {
        match self {
            CircleCircle::Apart => 0,
            _ => 1,
        }
    }
}

/// How two circles lie, from the squared distance of their centres and the
/// square of the sum of their radii.
pub open spec fn circle_circle_case(dist_sqr: i64, reach_sqr: i64) -> CircleCircle {
    if dist_sqr >= reach_sqr {
        CircleCircle::Apart
    } else if dist_sqr == 0 {
        CircleCircle::Coincident
    } else {
        CircleCircle::Overlapping
    }
}

/// Decides the contact of two circles and records the number of contact
/// points in the manifold. `dist_sqr` is the squared distance of the centres,
/// `reach_sqr` the square of the sum of the radii.
pub fn circle_circle(manifold: &mut Manifold, dist_sqr: i64, reach_sqr: i64) -> (case:
    CircleCircle)
    ensures
        case == circle_circle_case(dist_sqr, reach_sqr),
        dist_sqr >= reach_sqr ==> final(manifold).contact_count == 0,
        dist_sqr < reach_sqr ==> final(manifold).contact_count == 1,
        dist_sqr == 0 && reach_sqr > 0 ==> case == CircleCircle::Coincident,
        final(manifold).contact_count == case.contact_count(),
        final(manifold).a == old(manifold).a,
        final(manifold).b == old(manifold).b,
        final(manifold).mixed_restitution == old(manifold).mixed_restitution,
        old(manifold).wf() ==> final(manifold).wf(),
{
    if dist_sqr >= reach_sqr {
        manifold.contact_count = 0;
        return CircleCircle::Apart;
    }
    manifold.contact_count = 1;
    if dist_sqr == 0 {
        CircleCircle::Coincident
    } else {
        CircleCircle::Overlapping
    }
}

/// What was measured of the centre of a circle against one edge of a polygon,
/// in the frame of the polygon. The edge runs from its start, the vertex with
/// the number of the edge, to its end, the vertex after that.
#[derive(Clone, Copy, PartialEq, Eq, Structural, Debug)]
pub struct EdgeSample {
    /// The signed distance of the centre from the line of the edge, positive
    /// on the outside.
    pub separation: i64,
    /// The projection of the centre, taken from the start of the edge, on the
    /// direction from start to end.
    pub from_start: i64,
    /// The projection of the centre, taken from the end of the edge, on the
    /// direction from end to start.
    pub from_end: i64,
    /// The squared distance of the centre from the start of the edge.
    pub start_dist_sqr: i64,
}

/// How a circle lies to a polygon.
#[derive(Clone, Copy, PartialEq, Eq, Structural, Debug)]
pub enum CirclePolygon {
    /// The circle does not reach the polygon: no contact.
    Apart,
    /// The centre lies inside the polygon: one contact along the outward
    /// normal of the nearest edge, with the radius for the penetration.
    Inside { face: usize },
    /// The circle touches the polygon at a vertex, an end of the nearest edge
    /// `face`: one contact at the vertex, with the normal from the centre to
    /// the vertex.
    Vertex { face: usize, vertex: usize },
    /// The circle touches the inside of an edge: one contact along the normal
    /// of the edge.
    Face { face: usize },
}

impl CirclePolygon {
    /// The number of contact points.
    pub open spec fn contact_count(self) -> nat {
        match self {
            CirclePolygon::Apart => 0,
            _ => 1,
        }
    }
}

/// The separations of the samples, edge by edge.
pub open spec fn separations(samples: Seq<EdgeSample>) -> Seq<i64> {
    Seq::new(samples.len(), |i: int| samples[i].separation)
}

/// How a circle lies to a polygon. The nearest edge is the first of those
/// from which the centre is farthest out. With the centre farther out than
/// the radius there is no contact; with it inside the polygon, up to the
/// tolerance, the contact is at that edge. Otherwise the centre lies in the
/// region of the start of the edge, of its end, or of the edge itself, and a
/// vertex makes contact where it lies within the radius.
pub open spec fn circle_polygon_case(
    polygon: Polygon,
    samples: Seq<EdgeSample>,
    radius: i64,
    radius_sqr: i64,
    tolerance: i64,
) -> CirclePolygon {
    let face = first_max(separations(samples));
    let end = polygon.spec_next(face);
    let edge = samples[face];
    if edge.separation > radius {
        CirclePolygon::Apart
    } else if edge.separation < tolerance {
        CirclePolygon::Inside { face: face as usize }
    } else if edge.from_start <= 0 {
        if edge.start_dist_sqr > radius_sqr {
            CirclePolygon::Apart
        } else {
            CirclePolygon::Vertex { face: face as usize, vertex: face as usize }
        }
    } else if edge.from_end <= 0 {
        if samples[end].start_dist_sqr > radius_sqr {
            CirclePolygon::Apart
        } else {
            CirclePolygon::Vertex { face: face as usize, vertex: end as usize }
        }
    } else {
        CirclePolygon::Face { face: face as usize }
    }
}

/// A circle whose centre is farther out from some edge than its radius does
/// not touch the polygon, whichever edge is the nearest.
pub proof fn lemma_beyond_an_edge_is_apart(
    polygon: Polygon,
    samples: Seq<EdgeSample>,
    radius: i64,
    radius_sqr: i64,
    tolerance: i64,
    i: int,
)
    requires
        0 <= i < samples.len(),
        samples[i].separation > radius,
    ensures
        circle_polygon_case(polygon, samples, radius, radius_sqr, tolerance)
            == CirclePolygon::Apart,
{
    let seps = separations(samples);
    lemma_first_max_exists(seps);
    assert(seps[i] <= seps[first_max(seps)]);
}

/// A circle whose centre lies within its radius of every edge line, and in
/// the region of the nearest edge itself, touches that edge: in this region
/// nothing is left to test.
pub proof fn lemma_face_region_touches(
    polygon: Polygon,
    samples: Seq<EdgeSample>,
    radius: i64,
    radius_sqr: i64,
    tolerance: i64,
)
    requires
        samples.len() > 0,
        forall|i: int| 0 <= i < samples.len() ==> samples[i].separation <= radius,
        samples[first_max(separations(samples))].from_start > 0,
        samples[first_max(separations(samples))].from_end > 0,
    ensures
        circle_polygon_case(polygon, samples, radius, radius_sqr, tolerance).contact_count() == 1,
{
    let seps = separations(samples);
    lemma_first_max_exists(seps);
}

/// Decides the contact of a circle with a polygon and records the number of
/// contact points in the manifold. `samples[i]` is what was measured against
/// edge `i`; `radius` and `radius_sqr` are the radius of the circle and its
/// square, and `tolerance` is the separation below which the centre counts as
/// inside.
pub fn circle_polygon(
    manifold: &mut Manifold,
    polygon: &Polygon,
    samples: &Vec<EdgeSample>,
    radius: i64,
    radius_sqr: i64,
    tolerance: i64,
) -> (case: CirclePolygon)
    requires
        polygon.wf(),
        samples.len() == polygon.vertex_count,
    ensures
        case == circle_polygon_case(*polygon, samples@, radius, radius_sqr, tolerance),
        final(manifold).contact_count == case.contact_count(),
        final(manifold).a == old(manifold).a,
        final(manifold).b == old(manifold).b,
        final(manifold).mixed_restitution == old(manifold).mixed_restitution,
        old(manifold).wf() ==> final(manifold).wf(),
{
    manifold.contact_count = 0;
    let ghost seps = separations(samples@);
    let mut face: usize = 0;
    let mut i: usize = 0;
    while i < samples.len()
        invariant
            i <= samples.len(),
            samples.len() == polygon.vertex_count,
            polygon.wf(),
            seps == separations(samples@),
            i == 0 ==> face == 0,
            i > 0 ==> face < i,
            forall|j: int| 0 <= j < i ==> seps[j] <= seps[face as int],
            forall|j: int| 0 <= j < face ==> seps[j] < seps[face as int],
            forall|j: int| 0 <= j < i ==> seps[j] <= radius,
            manifold.contact_count == 0,
            manifold.a == old(manifold).a,
            manifold.b == old(manifold).b,
            manifold.mixed_restitution == old(manifold).mixed_restitution,
        decreases samples.len() - i,
    {
        let s = samples[i].separation;
        assert(s == seps[i as int]);
        if s > radius {
            proof {
                lemma_first_max_exists(seps);
                assert(seps[i as int] <= seps[first_max(seps)]);
            }
            return CirclePolygon::Apart;
        }
        if s > samples[face].separation {
            face = i;
        }
        i += 1;
    }
    proof {
        assert(is_first_max(seps, face as int));
        lemma_first_max_unique(seps, face as int);
    }
    let edge = samples[face];
    assert(edge.separation == seps[face as int]);
    if edge.separation < tolerance {
        manifold.contact_count = 1;
        return CirclePolygon::Inside { face };
    }
    let end = polygon.next(face);
    if edge.from_start <= 0 {
        if edge.start_dist_sqr > radius_sqr {
            return CirclePolygon::Apart;
        }
        manifold.contact_count = 1;
        CirclePolygon::Vertex { face, vertex: face }
    } else if edge.from_end <= 0 {
        if samples[end].start_dist_sqr > radius_sqr {
            return CirclePolygon::Apart;
        }
        manifold.contact_count = 1;
        CirclePolygon::Vertex { face, vertex: end }
    } else {
        manifold.contact_count = 1;
        CirclePolygon::Face { face }
    }
}

/// What the separating-axis test says of two polygons.
#[derive(Clone, Copy, PartialEq, Eq, Structural, Debug)]
pub enum Sat {
    /// An edge normal of one polygon separates the two: no contact.
    Separated,
    /// The polygons overlap. The reference face is on the first polygon and
    /// the incident face on the second, or, with `flip`, the other way round.
    Reference { flip: bool },
}

/// Whether penetration `a` counts as greater than penetration `b`, given `b`
/// biased towards `a`. The bias keeps the choice between two nearly equal
/// penetrations the same from step to step.
pub open spec fn spec_bias_gt(a: i64, biased_b: i64) -> bool {
    a >= biased_b
}

/// What the separating-axis test says, from the least penetration along the
/// edge normals of either polygon. Where neither separates the polygons, the
/// first polygon gives the reference face if its penetration counts as the
/// greater, against `biased_b`, the biased penetration of the second.
pub open spec fn sat_case(pen_a: i64, pen_b: i64, biased_b: i64) -> Sat {
    if pen_a >= 0 || pen_b >= 0 {
        Sat::Separated
    } else {
        Sat::Reference { flip: !spec_bias_gt(pen_a, biased_b) }
    }
}

/// Whether penetration `a` counts as greater than penetration `b`, given `b`
/// biased towards `a`.
pub fn bias_gt(a: i64, biased_b: i64) -> (r: bool)
    ensures
        r == spec_bias_gt(a, biased_b),
{
    a >= biased_b
}

/// Decides whether two polygons overlap and which of them gives the reference
/// face. `pen_a` and `pen_b` are the least penetrations along the edge
/// normals of the first and of the second polygon, `biased_b` is `pen_b`
/// biased towards `pen_a`. The manifold is left without contact points; where
/// the polygons overlap, [`polygon_contacts`] counts them once the incident
/// face is clipped.
pub fn polygon_polygon(manifold: &mut Manifold, pen_a: i64, pen_b: i64, biased_b: i64) -> (case:
    Sat)
    ensures
        case == sat_case(pen_a, pen_b, biased_b),
        final(manifold).contact_count == 0,
        final(manifold).a == old(manifold).a,
        final(manifold).b == old(manifold).b,
        final(manifold).mixed_restitution == old(manifold).mixed_restitution,
        old(manifold).wf() ==> final(manifold).wf(),
{
    manifold.contact_count = 0;
    if pen_a >= 0 {
        return Sat::Separated;
    }
    if pen_b >= 0 {
        return Sat::Separated;
    }
    if bias_gt(pen_a, biased_b) {
        Sat::Reference { flip: false }
    } else {
        Sat::Reference { flip: true }
    }
}

/// Whether every row of the table has `width` entries.
pub open spec fn has_width(table: Seq<Vec<i64>>, width: int) -> bool {
    forall|i: int| 0 <= i < table.len() ==> (#[trigger] table[i]).len() == width
}

/// How far the other polygon is from each edge of a polygon: the distance,
/// along the normal of edge `i`, from the edge to the support point of the
/// other polygon against that normal. It is negative where the support point
/// lies behind the edge. `projections[i][j]` is the projection of vertex `j`
/// of the other polygon on the reversed normal, and `distances[i][j]` its
/// distance from the edge along the normal.
pub open spec fn face_distances(projections: Seq<Vec<i64>>, distances: Seq<Vec<i64>>) -> Seq<i64> {
    Seq::new(projections.len(), |i: int| distances[i]@[first_max(projections[i]@)])
}

/// Finds the axis of least penetration of polygon `b` into polygon `a`: the
/// first edge of `a` from which `b` is farthest, by [`face_distances`].
/// Returns that distance, which is negative where `b` reaches behind every
/// edge of `a`, and the number of the edge.
pub fn find_axis_least_pen(
    a: &Polygon,
    b: &Polygon,
    projections: &Vec<Vec<i64>>,
    distances: &Vec<Vec<i64>>,
) -> (best: (i64, usize))
    requires
        a.wf(),
        b.wf(),
        projections.len() == a.vertex_count,
        distances.len() == a.vertex_count,
        has_width(projections@, b.vertex_count as int),
        has_width(distances@, b.vertex_count as int),
    ensures
        is_first_max(face_distances(projections@, distances@), best.1 as int),
        best.1 == first_max(face_distances(projections@, distances@)),
        best.0 == face_distances(projections@, distances@)[best.1 as int],
{
    let ghost gaps = face_distances(projections@, distances@);
    let support = b.find_support(&projections[0]);
    let mut best_dist: i64 = distances[0][support];
    let mut best_idx: usize = 0;
    let mut i: usize = 1;
    while i < projections.len()
        invariant
            1 <= i <= projections.len(),
            projections.len() == a.vertex_count,
            distances.len() == a.vertex_count,
            has_width(projections@, b.vertex_count as int),
            has_width(distances@, b.vertex_count as int),
            b.wf(),
            gaps == face_distances(projections@, distances@),
            best_idx < i,
            best_dist == gaps[best_idx as int],
            forall|j: int| 0 <= j < i ==> gaps[j] <= gaps[best_idx as int],
            forall|j: int| 0 <= j < best_idx ==> gaps[j] < gaps[best_idx as int],
        decreases projections.len() - i,
    {
        let support = b.find_support(&projections[i]);
        let d = distances[i][support];
        assert(d == gaps[i as int]);
        if d > best_dist {
            best_dist = d;
            best_idx = i;
        }
        i += 1;
    }
    proof {
        lemma_first_max_unique(gaps, best_idx as int);
    }
    (best_dist, best_idx)
}

/// Finds the incident face: the first edge of the incident polygon whose
/// normal is most against the reference normal. `alignments[i]` is the dot
/// product of the reference normal with the normal of edge `i`. Returns the
/// two vertices of the face, its start and its end.
pub fn find_incident_face(inc_poly: &Polygon, alignments: &Vec<i64>) -> (face: (usize, usize))
    requires
        inc_poly.wf(),
        alignments.len() == inc_poly.vertex_count,
    ensures
        face.0 == first_min(alignments@),
        face.1 == inc_poly.spec_next(face.0 as int),
        face.0 < inc_poly.vertex_count,
        face.1 < inc_poly.vertex_count,
{
    let start = first_min_index(alignments);
    let end = inc_poly.next(start);
    (start, end)
}

/// Where a point of a clipped segment comes from.
#[derive(Clone, Copy, PartialEq, Eq, Structural, Debug)]
pub enum ClipPoint {
    /// The first end of the segment before the clip.
    First,
    /// The second end of the segment before the clip.
    Second,
    /// The point at which the segment crosses the plane.
    Crossing,
}

/// A segment after it was clipped against a plane.
#[derive(Clone, Copy, PartialEq, Eq, Structural, Debug)]
pub struct Clip {
    /// The number of points that the clip kept or made: at most two.
    pub count: usize,
    /// The first end of the segment after the clip.
    pub first: ClipPoint,
    /// The second end of the segment after the clip.
    pub second: ClipPoint,
}

/// Whether the two ends of a segment lie strictly on different sides of the
/// plane, given their signed distances from it.
pub open spec fn crosses(first: i64, second: i64) -> bool {
    (first < 0 && second > 0) || (first > 0 && second < 0)
}

/// The points that a clip keeps or makes, in their order: each end that lies
/// behind the plane or on it, then the crossing point where there is one.
pub open spec fn clipped_points(first: i64, second: i64) -> Seq<ClipPoint> {
    (if first <= 0 {
        seq![ClipPoint::First]
    } else {
        Seq::<ClipPoint>::empty()
    }) + (if second <= 0 {
        seq![ClipPoint::Second]
    } else {
        Seq::<ClipPoint>::empty()
    }) + (if crosses(first, second) {
        seq![ClipPoint::Crossing]
    } else {
        Seq::<ClipPoint>::empty()
    })
}

/// The segment after the clip: the clipped points take the places of its
/// ends from the front, and an end whose place none takes stays.
pub open spec fn clip_case(first: i64, second: i64) -> Clip {
    let points = clipped_points(first, second);
    Clip {
        count: points.len() as usize,
        first: if points.len() > 0 {
            points[0]
        } else {
            ClipPoint::First
        },
        second: if points.len() > 1 {
            points[1]
        } else {
            ClipPoint::Second
        },
    }
}

/// Clipping never yields three points: where both ends are kept, the segment
/// does not cross the plane.
pub proof fn lemma_clip_keeps_at_most_two(first: i64, second: i64)
    ensures
        clipped_points(first, second).len() <= 2,
        clipped_points(first, second).len() == 2 <==> (first <= 0 && second <= 0) || crosses(
            first,
            second,
        ),
        clipped_points(first, second).len() == 0 <==> first > 0 && second > 0,
{
}

/// Clips a segment against a plane. `first` and `second` are the signed
/// distances of its two ends from the plane, positive in front of it.
pub fn clip(first: i64, second: i64) -> (clipped: Clip)
    ensures
        clipped == clip_case(first, second),
        clipped.count <= 2,
{
    proof {
        lemma_clip_keeps_at_most_two(first, second);
    }
    let mut count: usize = 0;
    let mut out_first = ClipPoint::First;
    let mut out_second = ClipPoint::Second;
    if first <= 0 {
        out_first = ClipPoint::First;
        count = 1;
    }
    if second <= 0 {
        if count == 0 {
            out_first = ClipPoint::Second;
        } else {
            out_second = ClipPoint::Second;
        }
        count = count + 1;
    }
    if (first < 0 && second > 0) || (first > 0 && second < 0) {
        out_second = ClipPoint::Crossing;
        count = count + 1;
    }
    Clip { count, first: out_first, second: out_second }
}

/// Which ends of the clipped incident face are contact points.
#[derive(Clone, Copy, PartialEq, Eq, Structural, Debug)]
pub enum Survivors {
    /// Neither end: no contact.
    Neither,
    /// The first end alone.
    First,
    /// The second end alone.
    Second,
    /// Both ends; the penetration is the mean of their depths.
    Both,
}

impl Survivors {
    /// The number of contact points.
    pub open spec fn contact_count(self) -> nat {
        match self {
            Survivors::Neither => 0,
            Survivors::First => 1,
            Survivors::Second => 1,
            Survivors::Both => 2,
        }
    }
}

/// Which ends of the incident face are contact points. The face was clipped
/// against the two side planes of the reference face; where either clip left
/// fewer than two points there is no contact. Otherwise the contact points
/// are the ends that lie behind the reference face or on it.
pub open spec fn survivors(negative: Clip, positive: Clip, first_sep: i64, second_sep: i64) -> Survivors {
    if negative.count < 2 || positive.count < 2 {
        Survivors::Neither
    } else if first_sep <= 0 && second_sep <= 0 {
        Survivors::Both
    } else if first_sep <= 0 {
        Survivors::First
    } else if second_sep <= 0 {
        Survivors::Second
    } else {
        Survivors::Neither
    }
}

/// Decides which ends of the clipped incident face are contact points and
/// records their number in the manifold. `negative` and `positive` are the
/// clips against the two side planes of the reference face, and `first_sep`
/// and `second_sep` the signed distances of the two ends from the reference
/// face; the distances are read only where both clips left two points.
pub fn polygon_contacts(
    manifold: &mut Manifold,
    negative: Clip,
    positive: Clip,
    first_sep: i64,
    second_sep: i64,
) -> (kept: Survivors)
    ensures
        kept == survivors(negative, positive, first_sep, second_sep),
        final(manifold).contact_count == kept.contact_count(),
        final(manifold).a == old(manifold).a,
        final(manifold).b == old(manifold).b,
        final(manifold).mixed_restitution == old(manifold).mixed_restitution,
        old(manifold).wf() ==> final(manifold).wf(),
{
    manifold.contact_count = 0;
    if negative.count < 2 || positive.count < 2 {
        return Survivors::Neither;
    }
    let mut count: usize = 0;
    let mut kept = Survivors::Neither;
    if first_sep <= 0 {
        kept = Survivors::First;
        count = 1;
    }
    if second_sep <= 0 {
        kept = if count == 0 {
            Survivors::Second
        } else {
            Survivors::Both
        };
        count = count + 1;
    }
    manifold.contact_count = count;
    kept
}

} // verus!
