//! The contact manifold of a pair of bodies and the decisions of its solver.

use vstd::prelude::*;
use crate::object::Object;
use crate::shapes::ShapeDiscriminant;

verus! {

/// The most contact points that a manifold holds.
pub const MAX_CONTACTS: usize = 2;

/// The contact between two bodies during one step. The bodies are named by
/// their places in the list of bodies that owns them.
#[derive(Clone, Copy, PartialEq, Eq, Structural, Debug)]
pub struct Manifold {
    /// The place of the first body.
    pub a: usize,
    /// The place of the second body.
    pub b: usize,
    /// The number of contact points.
    pub contact_count: usize,
    /// The rank of the restitution mixed for the pair.
    pub mixed_restitution: i64,
}

/// The routine that finds the contacts of a pair of shapes.
#[derive(Clone, Copy, PartialEq, Eq, Structural, Debug)]
pub enum NarrowPhase {
    /// Both shapes are circles.
    CircleCircle,
    /// Both shapes are polygons.
    PolygonPolygon,
    /// One shape is a circle and the other a polygon. The routine takes the
    /// circle first; `circle_first` tells whether the pair has it first too.
    CirclePolygon { circle_first: bool },
}

/// What the velocity solver does next in a pass over the contact points of
/// one manifold.
#[derive(Clone, Copy, PartialEq, Eq, Structural, Debug)]
pub enum Impulse {
    /// Both bodies are static: both velocities are set to zero and the pass
    /// ends.
    ZeroVelocities,
    /// The bodies close in at the contact point: equal and opposite impulses
    /// go to the bodies that are not static, and the pass goes on with the
    /// next contact point.
    Resolve { to_a: bool, to_b: bool },
    /// The pass ends: no contact point is left, or the bodies separate at
    /// this one.
    Halt,
}

/// How far the positions of a pair are corrected, and which bodies move.
#[derive(Clone, Copy, PartialEq, Eq, Structural, Debug)]
pub struct Correction {
    /// The rank of the penetration that is corrected: what exceeds the
    /// allowance, and zero where nothing does.
    pub depth: i64,
    /// Whether the first body is moved.
    pub moves_a: bool,
    /// Whether the second body is moved.
    pub moves_b: bool,
}

/// The routine for a pair of kinds.
pub open spec fn narrow_phase(a: ShapeDiscriminant, b: ShapeDiscriminant) -> NarrowPhase {
    match (a, b) {
        (ShapeDiscriminant::Circle, ShapeDiscriminant::Circle) => NarrowPhase::CircleCircle,
        (ShapeDiscriminant::Polygon, ShapeDiscriminant::Polygon) => NarrowPhase::PolygonPolygon,
        (ShapeDiscriminant::Circle, ShapeDiscriminant::Polygon) => NarrowPhase::CirclePolygon {
            circle_first: true,
        },
        (ShapeDiscriminant::Polygon, ShapeDiscriminant::Circle) => NarrowPhase::CirclePolygon {
            circle_first: false,
        },
    }
}

/// Whether some contact point is at rest: its squared approach speed is below
/// the bound.
pub open spec fn some_at_rest(approach_sqr: Seq<i64>, resting_sqr: i64) -> bool {
    exists|i: int| 0 <= i < approach_sqr.len() && approach_sqr[i] < resting_sqr
}

/// The restitution of a pair: zero where some contact point is at rest, and
/// else the lesser of the restitutions of the two bodies.
pub open spec fn mix_restitution(
    restitution_a: i64,
    restitution_b: i64,
    approach_sqr: Seq<i64>,
    resting_sqr: i64,
) -> i64 {
    if some_at_rest(approach_sqr, resting_sqr) {
        0
    } else if restitution_a <= restitution_b {
        restitution_a
    } else {
        restitution_b
    }
}

/// A static body receives no impulse from a contact with a body that can
/// move: the solver never sets the velocities of such a pair to zero, and an
/// impulse goes to the movable body alone.
pub proof fn lemma_static_body_receives_no_impulse(
    manifold: Manifold,
    a: Object,
    b: Object,
    contact: int,
    closing: i64,
)
    requires
        !(a.spec_is_static() && b.spec_is_static()),
    ensures
        manifold.impulse(a, b, contact, closing) != Impulse::ZeroVelocities,
        manifold.impulse(a, b, contact, closing) matches Impulse::Resolve { to_a, to_b } ==> {
            &&& (a.spec_is_static() ==> !to_a)
            &&& (b.spec_is_static() ==> !to_b)
            &&& (to_a || to_b)
        },
{
}

/// Two static bodies in contact come to rest: whatever the contact point and
/// whatever their velocities, the solver sets both velocities to zero.
pub proof fn lemma_static_pair_comes_to_rest(
    manifold: Manifold,
    a: Object,
    b: Object,
    contact: int,
    closing: i64,
)
    requires
        a.spec_is_static(),
        b.spec_is_static(),
    ensures
        manifold.impulse(a, b, contact, closing) == Impulse::ZeroVelocities,
{
}

impl Manifold {
    /// A manifold is between two different bodies and holds at most two
    /// contact points.
    pub open spec fn wf(&self) -> bool {
        &&& self.a != self.b
        &&& self.contact_count <= MAX_CONTACTS
    }

    /// Whether both bodies are among `count` bodies.
    pub open spec fn within(&self, count: int) -> bool {
        self.a < count && self.b < count
    }

    /// What the solver does at contact point `contact`, where the second body
    /// moves away from the first along the normal at speed `closing`, which
    /// is negative where the bodies close in.
    pub open spec fn impulse(&self, a: Object, b: Object, contact: int, closing: i64) -> Impulse {
        if a.spec_is_static() && b.spec_is_static() {
            Impulse::ZeroVelocities
        } else if contact >= self.contact_count || closing > 0 {
            Impulse::Halt
        } else {
            Impulse::Resolve { to_a: !a.spec_is_static(), to_b: !b.spec_is_static() }
        }
    }

    /// A manifold between the bodies at `a` and `b`, without contact points.
    pub fn new(a: usize, b: usize) -> (manifold: Manifold)
        ensures
            manifold.a == a,
            manifold.b == b,
            manifold.contact_count == 0,
            manifold.mixed_restitution == 0,
            manifold.wf() <==> a != b,
    {
        Manifold { a, b, contact_count: 0, mixed_restitution: 0 }
    }

    /// The routine that finds the contacts of this pair, by the kinds of the
    /// two shapes.
    pub fn solve(&self, objects: &Vec<Object>) -> (routine: NarrowPhase)
        requires
            self.within(objects.len() as int),
        ensures
            routine == narrow_phase(
                objects[self.a as int].shape.spec_discriminant(),
                objects[self.b as int].shape.spec_discriminant(),
            ),
    {
        let a = objects[self.a].shape.discriminant();
        let b = objects[self.b].shape.discriminant();
        match (a, b) {
            (ShapeDiscriminant::Circle, ShapeDiscriminant::Circle) => NarrowPhase::CircleCircle,
            (ShapeDiscriminant::Polygon, ShapeDiscriminant::Polygon) => NarrowPhase::PolygonPolygon,
            (ShapeDiscriminant::Circle, ShapeDiscriminant::Polygon) => NarrowPhase::CirclePolygon {
                circle_first: true,
            },
            _ => NarrowPhase::CirclePolygon { circle_first: false },
        }
    }

    /// Mixes the restitution of the pair from those of the two bodies.
    /// `approach_sqr[i]` is the squared speed at which the bodies approach
    /// each other at contact point `i`, and `resting_sqr` the bound below
    /// which a contact point is at rest.
    pub fn initialize(
        &mut self,
        restitution_a: i64,
        restitution_b: i64,
        approach_sqr: &Vec<i64>,
        resting_sqr: i64,
    )
        requires
            approach_sqr.len() == old(self).contact_count,
        ensures
            final(self).mixed_restitution == mix_restitution(
                restitution_a,
                restitution_b,
                approach_sqr@,
                resting_sqr,
            ),
            final(self).a == old(self).a,
            final(self).b == old(self).b,
            final(self).contact_count == old(self).contact_count,
            old(self).wf() ==> final(self).wf(),
    {
        let mut mixed = if restitution_a <= restitution_b {
            restitution_a
        } else {
            restitution_b
        };
        let mut i: usize = 0;
        while i < approach_sqr.len()
            invariant
                i <= approach_sqr.len(),
                mixed == mix_restitution(
                    restitution_a,
                    restitution_b,
                    approach_sqr@.take(i as int),
                    resting_sqr,
                ),
            decreases approach_sqr.len() - i,
        {
            let ghost before = approach_sqr@.take(i as int);
            let ghost after = approach_sqr@.take(i + 1);
            proof {
                assert(forall|j: int| 0 <= j < i ==> before[j] == after[j]);
                assert(after[i as int] == approach_sqr@[i as int]);
                if some_at_rest(before, resting_sqr) {
                    let w = choose|j: int| 0 <= j < before.len() && before[j] < resting_sqr;
                    assert(after[w] < resting_sqr);
                }
                if some_at_rest(after, resting_sqr) && !some_at_rest(before, resting_sqr) {
                    let w = choose|j: int| 0 <= j < after.len() && after[j] < resting_sqr;
                    if w < i {
                        assert(before[w] < resting_sqr);
                    }
                }
            }
            if approach_sqr[i] < resting_sqr {
                mixed = 0;
            }
            i += 1;
        }
        proof {
            assert(approach_sqr@.take(i as int) =~= approach_sqr@);
        }
        self.mixed_restitution = mixed;
    }

    /// What the velocity solver does at contact point `contact` of this
    /// manifold. `closing` is the speed along the normal at which the second
    /// body moves away from the first at that point; it is read only where
    /// the point exists and one of the bodies can move.
    pub fn apply_impulse(&self, objects: &Vec<Object>, contact: usize, closing: i64) -> (step:
        Impulse)
        requires
            self.within(objects.len() as int),
        ensures
            step == self.impulse(
                objects[self.a as int],
                objects[self.b as int],
                contact as int,
                closing,
            ),
            objects[self.a as int].spec_is_static() && objects[self.b as int].spec_is_static()
                ==> step == Impulse::ZeroVelocities,
    {
        let a_static = objects[self.a].is_static();
        let b_static = objects[self.b].is_static();
        if a_static && b_static {
            Impulse::ZeroVelocities
        } else if contact >= self.contact_count || closing > 0 {
            Impulse::Halt
        } else {
            Impulse::Resolve { to_a: !a_static, to_b: !b_static }
        }
    }

    /// How the positions of the pair are corrected. `excess` is the
    /// penetration less the allowance.
    pub fn positional_correction(&self, objects: &Vec<Object>, excess: i64) -> (correction:
        Correction)
        requires
            self.within(objects.len() as int),
        ensures
            correction.depth == (if excess > 0 {
                excess
            } else {
                0
            }),
            correction.moves_a == !objects[self.a as int].spec_is_static(),
            correction.moves_b == !objects[self.b as int].spec_is_static(),
    {
        Correction {
            depth: if excess > 0 {
                excess
            } else {
                0
            },
            moves_a: !objects[self.a].is_static(),
            moves_b: !objects[self.b].is_static(),
        }
    }
}

} // verus!
