//! The scene: the bodies, the contacts of the last step, and the order in
//! which a step does its work.
//!
//! A step of the engine tests every pair of bodies that can collide, then
//! integrates, solves and corrects in a fixed order. The scene names the
//! pairs ([`Scene::generate_pairs`]) and, once their contacts were found,
//! lays out the rest of the step as a list of actions ([`Scene::step`]).

use vstd::prelude::*;
use crate::manifold::{Manifold, MAX_CONTACTS};
use crate::object::Object;

verus! {

/// The number of passes that the velocity solver makes over the contacts in
/// one step.
pub const SOLVER_ITERATIONS: usize = 10;

/// One piece of the work of a step.
#[derive(Clone, Copy, PartialEq, Eq, Structural, Debug)]
pub enum Action {
    /// Add half a step of gravity and of the accumulated force and torque to
    /// the velocities of a body.
    IntegrateForces { body: usize },
    /// Mix the materials of the pair of a contact.
    Initialize { contact: usize },
    /// Make one pass of the velocity solver over the points of a contact.
    ApplyImpulse { contact: usize },
    /// Move a body by its velocities, then add the second half step of
    /// gravity, force and torque to them.
    IntegrateVelocities { body: usize },
    /// Push the pair of a contact apart.
    PositionalCorrection { contact: usize },
    /// Set the accumulated force and torque of a body to zero.
    ClearForces { body: usize },
}

/// The bodies of a simulation and the contacts found in its last step.
pub struct Scene {
    /// The bodies. A body is named by its place in this list.
    pub objects: Vec<Object>,
    /// The contacts of the last step, in the order in which their pairs were
    /// tested.
    pub contacts: Vec<Manifold>,
}

/// Whether the bodies at `a` and `b` are tested for contact: they are two
/// bodies of the list, taken in its order, and not both static.
pub open spec fn is_candidate(objects: Seq<Object>, a: int, b: int) -> bool {
    &&& 0 <= a < b < objects.len()
    &&& !(objects[a].spec_is_static() && objects[b].spec_is_static())
}

/// Whether the pair of `first` comes before the pair of `second`: by the
/// first body, and between equal first bodies by the second.
pub open spec fn precedes(first: Manifold, second: Manifold) -> bool {
    first.a < second.a || (first.a == second.a && first.b < second.b)
}

/// Whether `pairs` holds the pair of the bodies at `a` and `b`.
pub open spec fn holds_pair(pairs: Seq<Manifold>, a: int, b: int) -> bool {
    exists|k: int| 0 <= k < pairs.len() && (#[trigger] pairs[k]).a == a && pairs[k].b == b
}

/// Manifolds with a contact point.
pub open spec fn touches() -> spec_fn(Manifold) -> bool {
    |m: Manifold| m.contact_count > 0
}

/// The places `0` to `count - 1`, in order.
pub open spec fn places(count: nat) -> Seq<usize> {
    Seq::new(count, |i: int| i as usize)
}

/// Places of bodies that are not static.
pub open spec fn is_movable(objects: Seq<Object>) -> spec_fn(usize) -> bool {
    |body: usize| !objects[body as int].spec_is_static()
}

/// The places of the bodies that are not static, in order.
pub open spec fn movable(objects: Seq<Object>) -> Seq<usize> {
    places(objects.len()).filter(is_movable(objects))
}

/// Force integration for every body that is not static.
pub open spec fn force_integrations(objects: Seq<Object>) -> Seq<Action> {
    Seq::new(movable(objects).len(), |i: int| Action::IntegrateForces { body: movable(objects)[i] })
}

/// Velocity integration for every body that is not static.
pub open spec fn velocity_integrations(objects: Seq<Object>) -> Seq<Action> {
    Seq::new(
        movable(objects).len(),
        |i: int| Action::IntegrateVelocities { body: movable(objects)[i] },
    )
}

/// Initialization of every contact.
pub open spec fn initializations(contacts: nat) -> Seq<Action> {
    Seq::new(contacts, |c: int| Action::Initialize { contact: c as usize })
}

/// One pass of the velocity solver over every contact.
pub open spec fn solver_pass(contacts: nat) -> Seq<Action> {
    Seq::new(contacts, |c: int| Action::ApplyImpulse { contact: c as usize })
}

/// `passes` passes of the velocity solver, one after the other.
pub open spec fn solver_passes(contacts: nat, passes: nat) -> Seq<Action>
    decreases passes,
{
    if passes == 0 {
        Seq::empty()
    } else {
        solver_passes(contacts, (passes - 1) as nat) + solver_pass(contacts)
    }
}

/// Positional correction of every contact.
pub open spec fn corrections(contacts: nat) -> Seq<Action> {
    Seq::new(contacts, |c: int| Action::PositionalCorrection { contact: c as usize })
}

/// Clearing of the forces of every body.
pub open spec fn clearances(bodies: nat) -> Seq<Action> {
    Seq::new(bodies, |i: int| Action::ClearForces { body: i as usize })
}

/// The work of a step once its contacts are found, in order: the forces of
/// the movable bodies are integrated; every contact is initialized; the
/// solver makes its passes; the velocities of the movable bodies are
/// integrated; every contact is corrected; the forces of all bodies are
/// cleared.
pub open spec fn schedule(objects: Seq<Object>, contacts: nat) -> Seq<Action> {
    force_integrations(objects) + initializations(contacts) + solver_passes(
        contacts,
        SOLVER_ITERATIONS as nat,
    ) + velocity_integrations(objects) + corrections(contacts) + clearances(objects.len())
}

/// Whether an action is in order for the given bodies and number of
/// contacts: it names a body or a contact that exists, and integrates no
/// static body.
pub open spec fn permits(objects: Seq<Object>, contacts: nat, action: Action) -> bool {
    match action {
        Action::IntegrateForces { body } => body < objects.len()
            && !objects[body as int].spec_is_static(),
        Action::IntegrateVelocities { body } => body < objects.len()
            && !objects[body as int].spec_is_static(),
        Action::ClearForces { body } => body < objects.len(),
        Action::Initialize { contact } => contact < contacts,
        Action::ApplyImpulse { contact } => contact < contacts,
        Action::PositionalCorrection { contact } => contact < contacts,
    }
}

/// The place of an action in the order of a step, by its kind: force
/// integration first and the clearing of forces last.
pub open spec fn phase(action: Action) -> int {
    match action {
        Action::IntegrateForces { .. } => 0,
        Action::Initialize { .. } => 1,
        Action::ApplyImpulse { .. } => 2,
        Action::IntegrateVelocities { .. } => 3,
        Action::PositionalCorrection { .. } => 4,
        Action::ClearForces { .. } => 5,
    }
}

/// Every movable place is the place of a body that is not static.
pub proof fn lemma_movable_is_not_static(objects: Seq<Object>, i: int)
    requires
        0 <= i < movable(objects).len(),
        objects.len() <= usize::MAX,
    ensures
        movable(objects)[i] < objects.len(),
        !objects[movable(objects)[i] as int].spec_is_static(),
{
    let all = places(objects.len());
    let body = movable(objects)[i];
    all.lemma_filter_pred(is_movable(objects), i);
    assert(all.filter(is_movable(objects)).contains(body));
    all.lemma_filter_contains_rev(is_movable(objects), body);
    let w = choose|w: int| 0 <= w < all.len() && all[w] == body;
    assert(all[w] == w as usize);
}

/// Solver passes hold nothing but passes over contacts that exist.
pub proof fn lemma_solver_passes_apply_impulses(contacts: nat, passes: nat, k: int)
    requires
        0 <= k < solver_passes(contacts, passes).len(),
        contacts <= usize::MAX,
    ensures
        solver_passes(contacts, passes)[k] matches Action::ApplyImpulse { contact }
            && contact < contacts,
        solver_passes(contacts, passes).len() == passes * contacts,
    decreases passes,
{
    if passes > 0 {
        let front = solver_passes(contacts, (passes - 1) as nat);
        lemma_solver_passes_len(contacts, (passes - 1) as nat);
        lemma_solver_passes_len(contacts, passes);
        if k < front.len() {
            lemma_solver_passes_apply_impulses(contacts, (passes - 1) as nat, k);
        }
    }
}

/// Each solver pass visits every contact once.
pub proof fn lemma_solver_passes_len(contacts: nat, passes: nat)
    ensures
        solver_passes(contacts, passes).len() == passes * contacts,
    decreases passes,
{
    if passes > 0 {
        lemma_solver_passes_len(contacts, (passes - 1) as nat);
        assert((passes - 1) * contacts + contacts == passes * contacts) by (nonlinear_arith);
    } else {
        assert(0 * contacts == 0) by (nonlinear_arith);
    }
}

/// A static body is never moved by a step: every action of the schedule names
/// a body or a contact that exists, and no action integrates a static body.
pub proof fn lemma_schedule_spares_static_bodies(objects: Seq<Object>, contacts: nat, k: int)
    requires
        0 <= k < schedule(objects, contacts).len(),
        objects.len() <= usize::MAX,
        contacts <= usize::MAX,
    ensures
        permits(objects, contacts, schedule(objects, contacts)[k]),
{
    let forces = force_integrations(objects);
    let inits = initializations(contacts);
    let passes = solver_passes(contacts, SOLVER_ITERATIONS as nat);
    let velocities = velocity_integrations(objects);
    let fixes = corrections(contacts);
    let clears = clearances(objects.len());
    let all = schedule(objects, contacts);
    assert(all == forces + inits + passes + velocities + fixes + clears);
    let k1 = k - forces.len();
    let k2 = k1 - inits.len();
    let k3 = k2 - passes.len();
    let k4 = k3 - velocities.len();
    let k5 = k4 - fixes.len();
    if k < forces.len() {
        assert(all[k] == forces[k]);
        lemma_movable_is_not_static(objects, k);
    } else if k1 < inits.len() {
        assert(all[k] == inits[k1]);
    } else if k2 < passes.len() {
        assert(all[k] == passes[k2]);
        lemma_solver_passes_apply_impulses(contacts, SOLVER_ITERATIONS as nat, k2);
    } else if k3 < velocities.len() {
        assert(all[k] == velocities[k3]);
        lemma_movable_is_not_static(objects, k3);
    } else if k4 < fixes.len() {
        assert(all[k] == fixes[k4]);
    } else {
        assert(all[k] == clears[k5]);
    }
}

/// The work of a step is done kind by kind: no action comes before an action
/// of an earlier kind. So every contact is initialized before the solver
/// passes over it and corrected after the last pass, and every body is moved
/// after the solver has run.
pub proof fn lemma_schedule_goes_by_phases(objects: Seq<Object>, contacts: nat, i: int, j: int)
    requires
        0 <= i <= j < schedule(objects, contacts).len(),
        contacts <= usize::MAX,
    ensures
        phase(schedule(objects, contacts)[i]) <= phase(schedule(objects, contacts)[j]),
{
    lemma_phase_at(objects, contacts, i);
    lemma_phase_at(objects, contacts, j);
}

/// The kind of the action at each place of the schedule.
proof fn lemma_phase_at(objects: Seq<Object>, contacts: nat, k: int)
    requires
        0 <= k < schedule(objects, contacts).len(),
        contacts <= usize::MAX,
    ensures
        ({
            let k1 = force_integrations(objects).len();
            let k2 = k1 + initializations(contacts).len();
            let k3 = k2 + solver_passes(contacts, SOLVER_ITERATIONS as nat).len();
            let k4 = k3 + velocity_integrations(objects).len();
            let k5 = k4 + corrections(contacts).len();
            phase(schedule(objects, contacts)[k]) == if k < k1 {
                0int
            } else if k < k2 {
                1
            } else if k < k3 {
                2
            } else if k < k4 {
                3
            } else if k < k5 {
                4
            } else {
                5
            }
        }),
{
    let forces = force_integrations(objects);
    let inits = initializations(contacts);
    let passes = solver_passes(contacts, SOLVER_ITERATIONS as nat);
    let velocities = velocity_integrations(objects);
    let fixes = corrections(contacts);
    let clears = clearances(objects.len());
    let all = schedule(objects, contacts);
    assert(all == forces + inits + passes + velocities + fixes + clears);
    let k1 = k - forces.len();
    let k2 = k1 - inits.len();
    let k3 = k2 - passes.len();
    let k4 = k3 - velocities.len();
    let k5 = k4 - fixes.len();
    if k < forces.len() {
        assert(all[k] == forces[k]);
    } else if k1 < inits.len() {
        assert(all[k] == inits[k1]);
    } else if k2 < passes.len() {
        assert(all[k] == passes[k2]);
        lemma_solver_passes_apply_impulses(contacts, SOLVER_ITERATIONS as nat, k2);
    } else if k3 < velocities.len() {
        assert(all[k] == velocities[k3]);
    } else if k4 < fixes.len() {
        assert(all[k] == fixes[k4]);
    } else {
        assert(all[k] == clears[k5]);
    }
}

/// No pair is tested twice: manifolds in the order of their pairs differ in
/// their pairs.
pub proof fn lemma_ordered_pairs_are_distinct(pairs: Seq<Manifold>, j: int, k: int)
    requires
        forall|x: int, y: int|
            0 <= x < y < pairs.len() ==> precedes(#[trigger] pairs[x], #[trigger] pairs[y]),
        0 <= j < pairs.len(),
        0 <= k < pairs.len(),
        j != k,
    ensures
        pairs[j].a != pairs[k].a || pairs[j].b != pairs[k].b,
{
    if j < k {
        assert(precedes(pairs[j], pairs[k]));
    } else {
        assert(precedes(pairs[k], pairs[j]));
    }
}

impl Scene {
    /// The contacts of a scene are between pairs of its bodies that are
    /// tested, and each has one or two contact points.
    pub open spec fn wf(&self) -> bool {
        forall|k: int|
            0 <= k < self.contacts.len() ==> {
                &&& is_candidate(
                    self.objects@,
                    (#[trigger] self.contacts[k]).a as int,
                    self.contacts[k].b as int,
                )
                &&& 1 <= self.contacts[k].contact_count <= MAX_CONTACTS
            }
    }

    /// Whether the manifolds are of pairs of this scene that are tested, with
    /// no more contact points than a manifold holds.
    pub open spec fn admits(&self, detected: Seq<Manifold>) -> bool {
        forall|k: int|
            0 <= k < detected.len() ==> {
                &&& is_candidate(
                    self.objects@,
                    (#[trigger] detected[k]).a as int,
                    detected[k].b as int,
                )
                &&& detected[k].contact_count <= MAX_CONTACTS
            }
    }

    /// Whether [`Scene::step`] accepts these manifolds.
    pub fn accepts(&self, detected: &Vec<Manifold>) -> (r: bool)
        ensures
            r == self.admits(detected@),
    {
        let mut k: usize = 0;
        while k < detected.len()
            invariant
                k <= detected.len(),
                forall|j: int|
                    0 <= j < k ==> {
                        &&& is_candidate(
                            self.objects@,
                            (#[trigger] detected@[j]).a as int,
                            detected@[j].b as int,
                        )
                        &&& detected@[j].contact_count <= MAX_CONTACTS
                    },
            decreases detected.len() - k,
        {
            let m = detected[k];
            if !(m.a < m.b && m.b < self.objects.len()) {
                return false;
            }
            if self.objects[m.a].is_static() && self.objects[m.b].is_static() {
                return false;
            }
            if m.contact_count > MAX_CONTACTS {
                return false;
            }
            k += 1;
        }
        true
    }

    /// The pairs of bodies to test for contact: every two bodies that are not
    /// both static, once, the earlier body first, in the order of the list.
    /// Each comes as a manifold without contact points.
    pub fn generate_pairs(&self) -> (pairs: Vec<Manifold>)
        ensures
            forall|k: int|
                0 <= k < pairs.len() ==> {
                    &&& is_candidate(
                        self.objects@,
                        (#[trigger] pairs[k]).a as int,
                        pairs[k].b as int,
                    )
                    &&& pairs[k].contact_count == 0
                    &&& pairs[k].mixed_restitution == 0
                },
            forall|a: int, b: int|
                is_candidate(self.objects@, a, b) ==> #[trigger] holds_pair(pairs@, a, b),
            forall|j: int, k: int|
                0 <= j < k < pairs.len() ==> precedes(#[trigger] pairs[j], #[trigger] pairs[k]),
            self.admits(pairs@),
    {
        let mut pairs: Vec<Manifold> = Vec::new();
        let n = self.objects.len();
        let mut a: usize = 0;
        while a < n
            invariant
                a <= n,
                n == self.objects.len(),
                forall|k: int|
                    0 <= k < pairs.len() ==> {
                        &&& is_candidate(
                            self.objects@,
                            (#[trigger] pairs[k]).a as int,
                            pairs[k].b as int,
                        )
                        &&& pairs[k].a < a
                        &&& pairs[k].contact_count == 0
                        &&& pairs[k].mixed_restitution == 0
                    },
                forall|x: int, y: int|
                    is_candidate(self.objects@, x, y) && x < a ==> #[trigger] holds_pair(
                        pairs@,
                        x,
                        y,
                    ),
                forall|j: int, k: int|
                    0 <= j < k < pairs.len() ==> precedes(
                        #[trigger] pairs[j],
                        #[trigger] pairs[k],
                    ),
            decreases n - a,
        {
            let a_static = self.objects[a].is_static();
            let mut b: usize = a + 1;
            while b < n
                invariant
                    a < n,
                    a < b <= n,
                    n == self.objects.len(),
                    a_static == self.objects@[a as int].spec_is_static(),
                    forall|k: int|
                        0 <= k < pairs.len() ==> {
                            &&& is_candidate(
                                self.objects@,
                                (#[trigger] pairs[k]).a as int,
                                pairs[k].b as int,
                            )
                            &&& (pairs[k].a < a || (pairs[k].a == a && pairs[k].b < b))
                            &&& pairs[k].contact_count == 0
                            &&& pairs[k].mixed_restitution == 0
                        },
                    forall|x: int, y: int|
                        is_candidate(self.objects@, x, y) && (x < a || (x == a && y < b))
                            ==> #[trigger] holds_pair(pairs@, x, y),
                    forall|j: int, k: int|
                        0 <= j < k < pairs.len() ==> precedes(
                            #[trigger] pairs[j],
                            #[trigger] pairs[k],
                        ),
                decreases n - b,
            {
                if !(a_static && self.objects[b].is_static()) {
                    let ghost before = pairs@;
                    let m = Manifold::new(a, b);
                    pairs.push(m);
                    proof {
                        assert forall|x: int, y: int|
                            is_candidate(self.objects@, x, y) && (x < a || (x == a && y < b + 1))
                            implies #[trigger] holds_pair(pairs@, x, y) by {
                            if x == a && y == b {
                                assert(pairs@[before.len() as int] == m);
                            } else {
                                assert(holds_pair(before, x, y));
                                let w = choose|w: int|
                                    0 <= w < before.len() && (#[trigger] before[w]).a == x
                                        && before[w].b == y;
                                assert(pairs@[w] == before[w]);
                            }
                        }
                    }
                }
                b += 1;
            }
            a += 1;
        }
        pairs
    }

    /// Ends the detection of a step and lays out the rest of it. `detected`
    /// holds the manifolds of the pairs that were tested, each with the
    /// number of contact points that the narrow phase found. The contacts of
    /// the step before are dropped; those of the manifolds with a contact
    /// point take their place, in order. The result is the work that is left,
    /// in the order in which it is to be done; a contact is named in it by
    /// its place among the contacts of the scene.
    pub fn step(&mut self, detected: Vec<Manifold>) -> (plan: Vec<Action>)
        requires
            old(self).admits(detected@),
        ensures
            final(self).objects@ == old(self).objects@,
            final(self).contacts@ == detected@.filter(touches()),
            final(self).wf(),
            plan@ == schedule(final(self).objects@, final(self).contacts@.len()),
            forall|k: int|
                0 <= k < plan.len() ==> permits(
                    final(self).objects@,
                    final(self).contacts@.len(),
                    #[trigger] plan[k],
                ),
    {
        self.contacts = Vec::new();
        let mut k: usize = 0;
        while k < detected.len()
            invariant
                k <= detected.len(),
                self.objects@ == old(self).objects@,
                old(self).admits(detected@),
                self.contacts@ == detected@.take(k as int).filter(touches()),
                self.wf(),
            decreases detected.len() - k,
        {
            let m = detected[k];
            proof {
                assert(detected@.take(k + 1) =~= detected@.take(k as int).push(m));
                detected@.take(k as int).lemma_filter_push(m, touches());
            }
            if m.contact_count > 0 {
                self.contacts.push(m);
            }
            k += 1;
        }
        proof {
            assert(detected@.take(k as int) =~= detected@);
        }
        let bodies = movable_bodies(&self.objects);
        let contacts = self.contacts.len();
        let mut plan: Vec<Action> = Vec::new();
        extend_with_bodies(&mut plan, &bodies, false);
        extend_with_contacts(&mut plan, contacts, Phase::Initialize);
        let mut pass: usize = 0;
        while pass < SOLVER_ITERATIONS
            invariant
                pass <= SOLVER_ITERATIONS,
                bodies@ == movable(self.objects@),
                plan@ == force_integrations(self.objects@) + initializations(contacts as nat)
                    + solver_passes(contacts as nat, pass as nat),
            decreases SOLVER_ITERATIONS - pass,
        {
            extend_with_contacts(&mut plan, contacts, Phase::ApplyImpulse);
            pass += 1;
        }
        extend_with_bodies(&mut plan, &bodies, true);
        extend_with_contacts(&mut plan, contacts, Phase::PositionalCorrection);
        let ghost before = plan@;
        let mut body: usize = 0;
        while body < self.objects.len()
            invariant
                body <= self.objects.len(),
                plan@ == before + clearances(body as nat),
            decreases self.objects.len() - body,
        {
            plan.push(Action::ClearForces { body });
            body += 1;
        }
        proof {
            assert forall|k: int| 0 <= k < plan.len() implies permits(
                self.objects@,
                self.contacts@.len(),
                #[trigger] plan[k],
            ) by {
                lemma_schedule_spares_static_bodies(self.objects@, self.contacts@.len(), k);
            }
        }
        plan
    }
}

/// The work that is done contact by contact.
#[derive(Clone, Copy, PartialEq, Eq, Structural)]
enum Phase {
    Initialize,
    ApplyImpulse,
    PositionalCorrection,
}

/// The actions of one phase, for every contact in order.
spec fn phase_actions(phase: Phase, contacts: nat) -> Seq<Action> {
    match phase {
        Phase::Initialize => initializations(contacts),
        Phase::ApplyImpulse => solver_pass(contacts),
        Phase::PositionalCorrection => corrections(contacts),
    }
}

/// The integrations of the given bodies, of forces or of velocities.
spec fn body_actions(bodies: Seq<usize>, velocities: bool) -> Seq<Action> {
    Seq::new(
        bodies.len(),
        |i: int|
            if velocities {
                Action::IntegrateVelocities { body: bodies[i] }
            } else {
                Action::IntegrateForces { body: bodies[i] }
            },
    )
}

/// The places of the bodies that are not static.
fn movable_bodies(objects: &Vec<Object>) -> (bodies: Vec<usize>)
    ensures
        bodies@ == movable(objects@),
{
    let mut bodies: Vec<usize> = Vec::new();
    let mut i: usize = 0;
    while i < objects.len()
        invariant
            i <= objects.len(),
            bodies@ == places(i as nat).filter(is_movable(objects@)),
        decreases objects.len() - i,
    {
        proof {
            assert(places((i + 1) as nat) =~= places(i as nat).push(i));
            places(i as nat).lemma_filter_push(i, is_movable(objects@));
        }
        if !objects[i].is_static() {
            bodies.push(i);
        }
        i += 1;
    }
    bodies
}

/// Appends the integration of each of the bodies to the plan.
fn extend_with_bodies(plan: &mut Vec<Action>, bodies: &Vec<usize>, velocities: bool)
    ensures
        final(plan)@ == old(plan)@ + body_actions(bodies@, velocities),
{
    let ghost before = plan@;
    let mut i: usize = 0;
    while i < bodies.len()
        invariant
            i <= bodies.len(),
            plan@ == before + body_actions(bodies@.take(i as int), velocities),
        decreases bodies.len() - i,
    {
        let body = bodies[i];
        if velocities {
            plan.push(Action::IntegrateVelocities { body });
        } else {
            plan.push(Action::IntegrateForces { body });
        }
        i += 1;
        assert(plan@ =~= before + body_actions(bodies@.take(i as int), velocities));
    }
    proof {
        assert(bodies@.take(i as int) =~= bodies@);
    }
}

/// Appends the action of one phase for each contact to the plan.
fn extend_with_contacts(plan: &mut Vec<Action>, contacts: usize, phase: Phase)
    ensures
        final(plan)@ == old(plan)@ + phase_actions(phase, contacts as nat),
{
    let ghost before = plan@;
    let mut c: usize = 0;
    while c < contacts
        invariant
            c <= contacts,
            plan@ == before + phase_actions(phase, c as nat),
        decreases contacts - c,
    {
        match phase {
            Phase::Initialize => plan.push(Action::Initialize { contact: c }),
            Phase::ApplyImpulse => plan.push(Action::ApplyImpulse { contact: c }),
            Phase::PositionalCorrection => plan.push(Action::PositionalCorrection { contact: c }),
        }
        c += 1;
        assert(plan@ =~= before + phase_actions(phase, c as nat));
    }
}

} // verus!
