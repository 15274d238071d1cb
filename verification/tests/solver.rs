//! The decisions of the manifold and its solver.

use nalgebra::{Point2, Vector2};
use rigid2d::collision::{circle_circle, CircleCircle};
use rigid2d::manifold::{Correction, Impulse, Manifold, NarrowPhase};
use rigid2d::object::{MassData, Object};
use rigid2d::rank::{from_bits, to_bits};
use rigid2d::shapes::{Polygon, Shapes};

fn rank(value: f64) -> i64 {
    from_bits(value.to_bits()).expect("a measured quantity is a number")
}

fn value(rank: i64) -> f64 {
    f64::from_bits(to_bits(rank))
}

/// A circle as the solver sees it.
struct Ball {
    pos: Point2<f64>,
    radius: f64,
    vel: Vector2<f64>,
    angular_vel: f64,
    mass: f64,
    inertia: f64,
}

impl Ball {
    fn new(x: f64, radius: f64, vel_x: f64, density: f64) -> Ball {
        let mass = std::f64::consts::PI * radius * radius * density;
        Ball {
            pos: Point2::new(x, 0.0),
            radius,
            vel: Vector2::new(vel_x, 0.0),
            angular_vel: 0.0,
            mass,
            inertia: mass * radius * radius,
        }
    }

    fn body(&self) -> Object {
        Object::new(Shapes::Circle, MassData::new(rank(self.mass), rank(self.inertia)))
    }

    fn inv_mass(&self) -> f64 {
        if self.body().mass_data.inverts_mass() {
            1.0 / self.mass
        } else {
            0.0
        }
    }

    fn inv_inertia(&self) -> f64 {
        if self.body().mass_data.inverts_inertia() {
            1.0 / self.inertia
        } else {
            0.0
        }
    }

    fn apply_impulse(&mut self, imp: Vector2<f64>, arm: Vector2<f64>) {
        self.vel += self.inv_mass() * imp;
        self.angular_vel += self.inv_inertia() * (arm.x * imp.y - arm.y * imp.x);
    }
}

fn cross(a: f64, v: Vector2<f64>) -> Vector2<f64> {
    Vector2::new(-a * v.y, a * v.x)
}

/// Finds the contact of two balls; returns the manifold, the normal and the
/// contact point.
fn detect(a: &Ball, b: &Ball) -> (Manifold, Vector2<f64>, Vector2<f64>) {
    let objects = vec![a.body(), b.body()];
    let mut manifold = Manifold::new(0, 1);
    assert_eq!(manifold.solve(&objects), NarrowPhase::CircleCircle);
    let norm = b.pos - a.pos;
    let rad = a.radius + b.radius;
    match circle_circle(&mut manifold, rank(norm.norm_squared()), rank(rad * rad)) {
        CircleCircle::Apart => (manifold, Vector2::zeros(), Vector2::zeros()),
        CircleCircle::Coincident => (manifold, Vector2::new(1.0, 0.0), a.pos.coords),
        CircleCircle::Overlapping => {
            let normal = norm / norm.norm();
            (manifold, normal, normal * b.radius + a.pos.coords)
        }
    }
}

/// One pass of the velocity solver over a manifold with a single normal.
fn solve_pass(
    manifold: &Manifold,
    normal: Vector2<f64>,
    contacts: &[Vector2<f64>],
    a: &mut Ball,
    b: &mut Ball,
) {
    let objects = vec![a.body(), b.body()];
    let mut contact = 0;
    loop {
        let (ra, rb, contact_vel) = if contact < manifold.contact_count {
            let ra = contacts[contact] - a.pos.coords;
            let rb = contacts[contact] - b.pos.coords;
            let rv = b.vel + cross(b.angular_vel, rb) - a.vel - cross(a.angular_vel, ra);
            (ra, rb, rv.dot(&normal))
        } else {
            (Vector2::zeros(), Vector2::zeros(), 0.0)
        };
        match manifold.apply_impulse(&objects, contact, rank(contact_vel)) {
            Impulse::ZeroVelocities => {
                a.vel = Vector2::zeros();
                b.vel = Vector2::zeros();
                return;
            }
            Impulse::Halt => return,
            Impulse::Resolve { to_a, to_b } => {
                let ra_cross_n = ra.x * normal.y - ra.y * normal.x;
                let rb_cross_n = rb.x * normal.y - rb.y * normal.x;
                let inv_mass_sum = a.inv_mass()
                    + b.inv_mass()
                    + ra_cross_n * ra_cross_n * a.inv_inertia()
                    + rb_cross_n * rb_cross_n * b.inv_inertia();
                let mut imp_s = -(1.0 + value(manifold.mixed_restitution)) * contact_vel;
                imp_s /= inv_mass_sum;
                imp_s /= manifold.contact_count as f64;
                let imp = normal * imp_s;
                if to_a {
                    a.apply_impulse(-imp, ra);
                }
                if to_b {
                    b.apply_impulse(imp, rb);
                }
                contact += 1;
            }
        }
    }
}

#[test]
fn test_apply_impulse() {
    let mut a = Ball::new(0.0, 4.0, 10.0, 2.5);
    let mut b = Ball::new(0.0, 4.0, -10.0, 2.5);
    let initial_vel_a = a.vel;
    let initial_vel_b = b.vel;

    let (manifold, normal, contact) = detect(&a, &b);
    solve_pass(&manifold, normal, &[contact], &mut a, &mut b);

    assert_ne!(a.vel, initial_vel_a);
    assert_ne!(b.vel, initial_vel_b);
}

#[test]
fn an_elastic_head_on_collision_of_equal_balls_swaps_their_velocities() {
    let mut a = Ball::new(0.0, 4.0, 10.0, 1.0);
    let mut b = Ball::new(6.0, 4.0, -10.0, 1.0);
    let momentum = a.mass * a.vel + b.mass * b.vel;
    let energy = 0.5 * a.mass * a.vel.norm_squared() + 0.5 * b.mass * b.vel.norm_squared();

    let (mut manifold, normal, contact) = detect(&a, &b);
    assert_eq!(manifold.contact_count, 1);
    // Fast bodies with a restitution of one on both sides.
    let approach = (b.vel - a.vel).norm_squared();
    manifold.initialize(rank(1.0), rank(1.0), &vec![rank(approach)], rank(0.0267));
    assert_eq!(manifold.mixed_restitution, rank(1.0));
    solve_pass(&manifold, normal, &[contact], &mut a, &mut b);

    assert!((a.vel - Vector2::new(-10.0, 0.0)).norm() < 1e-9);
    assert!((b.vel - Vector2::new(10.0, 0.0)).norm() < 1e-9);
    let momentum_after = a.mass * a.vel + b.mass * b.vel;
    let energy_after =
        0.5 * a.mass * a.vel.norm_squared() + 0.5 * b.mass * b.vel.norm_squared();
    assert!((momentum_after - momentum).norm() < 1e-9);
    assert!((energy_after - energy).abs() < 1e-6);
}

#[test]
fn a_second_pass_leaves_separating_balls_alone() {
    let mut a = Ball::new(0.0, 4.0, 10.0, 1.0);
    let mut b = Ball::new(6.0, 4.0, -10.0, 1.0);
    let (mut manifold, normal, contact) = detect(&a, &b);
    manifold.initialize(rank(0.5), rank(0.75), &vec![rank(400.0)], rank(0.0267));
    assert_eq!(manifold.mixed_restitution, rank(0.5));

    solve_pass(&manifold, normal, &[contact], &mut a, &mut b);
    let (vel_a, vel_b) = (a.vel, b.vel);
    assert!((a.vel - Vector2::new(-5.0, 0.0)).norm() < 1e-9);
    assert!((b.vel - Vector2::new(5.0, 0.0)).norm() < 1e-9);
    solve_pass(&manifold, normal, &[contact], &mut a, &mut b);

    assert_eq!((a.vel, b.vel), (vel_a, vel_b));
}

#[test]
fn two_static_bodies_come_to_rest() {
    let mut a = Ball::new(0.0, 4.0, 10.0, f64::INFINITY);
    let mut b = Ball::new(6.0, 4.0, -3.0, f64::INFINITY);
    b.vel = Vector2::new(-3.0, 7.0);
    let (manifold, normal, contact) = detect(&a, &b);

    solve_pass(&manifold, normal, &[contact], &mut a, &mut b);

    assert_eq!(a.vel, Vector2::zeros());
    assert_eq!(b.vel, Vector2::zeros());
}

#[test]
fn two_static_bodies_come_to_rest_whatever_the_contact() {
    let anchor = Object::new(Shapes::Circle, MassData::new(rank(f64::INFINITY), rank(1.0)));
    let wall = Object::new(
        Shapes::Polygon(Polygon { vertex_count: 4 }),
        MassData::new(rank(f64::NEG_INFINITY), rank(f64::INFINITY)),
    );
    let objects = vec![anchor, wall];
    let mut manifold = Manifold::new(1, 0);

    for count in 0..=2 {
        manifold.contact_count = count;
        for contact in 0..4 {
            for closing in [-20.0, -0.0, 0.0, 5.0, f64::INFINITY] {
                assert_eq!(
                    manifold.apply_impulse(&objects, contact, rank(closing)),
                    Impulse::ZeroVelocities
                );
            }
        }
    }
}

#[test]
fn a_static_body_receives_no_impulse() {
    let mut floor = Ball::new(0.0, 4.0, 0.0, f64::INFINITY);
    let mut ball = Ball::new(6.0, 4.0, -10.0, 1.0);
    let (manifold, normal, contact) = detect(&floor, &ball);
    let objects = vec![floor.body(), ball.body()];

    assert_eq!(
        manifold.apply_impulse(&objects, 0, rank(-10.0)),
        Impulse::Resolve { to_a: false, to_b: true }
    );
    let swapped = Manifold { a: 1, b: 0, ..manifold };
    assert_eq!(
        swapped.apply_impulse(&objects, 0, rank(-10.0)),
        Impulse::Resolve { to_a: true, to_b: false }
    );

    solve_pass(&manifold, normal, &[contact], &mut floor, &mut ball);
    assert_eq!(floor.vel, Vector2::zeros());
    assert_eq!(floor.angular_vel, 0.0);
    assert!((ball.vel - Vector2::new(0.0, 0.0)).norm() < 1e-9);
}

#[test]
fn the_pass_ends_at_a_separating_contact_and_after_the_last() {
    let ball = Object::new(Shapes::Circle, MassData::new(rank(2.0), rank(1.0)));
    let objects = vec![ball, ball];
    let mut manifold = Manifold::new(0, 1);
    manifold.contact_count = 2;
    let both = Impulse::Resolve { to_a: true, to_b: true };

    assert_eq!(manifold.apply_impulse(&objects, 0, rank(-1.0)), both);
    assert_eq!(manifold.apply_impulse(&objects, 1, rank(-1.0)), both);
    assert_eq!(manifold.apply_impulse(&objects, 0, rank(0.0)), both);
    assert_eq!(manifold.apply_impulse(&objects, 0, rank(1e-300)), Impulse::Halt);
    assert_eq!(manifold.apply_impulse(&objects, 1, rank(3.0)), Impulse::Halt);
    assert_eq!(manifold.apply_impulse(&objects, 2, rank(-1.0)), Impulse::Halt);

    manifold.contact_count = 0;
    assert_eq!(manifold.apply_impulse(&objects, 0, rank(-1.0)), Impulse::Halt);
}

#[test]
fn a_new_manifold_has_no_contacts() {
    let manifold = Manifold::new(4, 9);

    assert_eq!(
        manifold,
        Manifold { a: 4, b: 9, contact_count: 0, mixed_restitution: 0 }
    );
}

#[test]
fn the_routine_goes_by_the_kinds_of_the_two_shapes() {
    let mass = MassData::new(rank(1.0), rank(1.0));
    let circle = Object::new(Shapes::Circle, mass);
    let polygon = Object::new(Shapes::Polygon(Polygon { vertex_count: 3 }), mass);
    let objects = vec![circle, polygon, circle, polygon];

    assert_eq!(Manifold::new(0, 2).solve(&objects), NarrowPhase::CircleCircle);
    assert_eq!(Manifold::new(1, 3).solve(&objects), NarrowPhase::PolygonPolygon);
    assert_eq!(
        Manifold::new(0, 1).solve(&objects),
        NarrowPhase::CirclePolygon { circle_first: true }
    );
    assert_eq!(
        Manifold::new(1, 2).solve(&objects),
        NarrowPhase::CirclePolygon { circle_first: false }
    );
}

#[test]
fn the_mixed_restitution_is_the_lesser_of_the_two() {
    let mut manifold = Manifold::new(0, 1);
    manifold.contact_count = 2;
    let fast = vec![rank(25.0), rank(16.0)];

    manifold.initialize(rank(0.8), rank(0.3), &fast, rank(1.0));
    assert_eq!(value(manifold.mixed_restitution), 0.3);
    manifold.initialize(rank(0.1), rank(0.3), &fast, rank(1.0));
    assert_eq!(value(manifold.mixed_restitution), 0.1);
    manifold.initialize(rank(0.6), rank(0.6), &fast, rank(1.0));
    assert_eq!(value(manifold.mixed_restitution), 0.6);
    assert_eq!((manifold.a, manifold.b, manifold.contact_count), (0, 1, 2));
}

#[test]
fn a_resting_contact_does_not_bounce() {
    let mut manifold = Manifold::new(0, 1);
    manifold.contact_count = 2;
    // A step of a sixtieth of a second under gravity of 9.8.
    let dt: f64 = 1.0 / 60.0;
    let resting = rank((dt * 9.8) * (dt * 9.8) + f64::EPSILON);

    manifold.initialize(rank(0.8), rank(0.3), &vec![rank(25.0), rank(0.01)], resting);
    assert_eq!(manifold.mixed_restitution, 0);
    manifold.initialize(rank(0.8), rank(0.3), &vec![rank(0.0), rank(25.0)], resting);
    assert_eq!(manifold.mixed_restitution, 0);
    // At the bound itself the contact is not at rest.
    manifold.initialize(rank(0.8), rank(0.3), &vec![rank(25.0), resting], resting);
    assert_eq!(value(manifold.mixed_restitution), 0.3);

    manifold.contact_count = 0;
    manifold.initialize(rank(0.8), rank(0.9), &vec![], resting);
    assert_eq!(value(manifold.mixed_restitution), 0.8);
}

#[test]
fn positions_are_corrected_by_what_exceeds_the_allowance() {
    let ball = Object::new(Shapes::Circle, MassData::new(rank(2.0), rank(1.0)));
    let floor = Object::new(
        Shapes::Polygon(Polygon { vertex_count: 4 }),
        MassData::new(rank(f64::INFINITY), rank(f64::INFINITY)),
    );
    let objects = vec![ball, floor, ball];
    let allowance = 0.05;

    let deep = Manifold::new(0, 2).positional_correction(&objects, rank(0.75 - allowance));
    assert_eq!(
        deep,
        Correction { depth: rank(0.75 - allowance), moves_a: true, moves_b: true }
    );
    let shallow = Manifold::new(0, 2).positional_correction(&objects, rank(0.01 - allowance));
    assert_eq!(shallow, Correction { depth: 0, moves_a: true, moves_b: true });
    let exact = Manifold::new(0, 2).positional_correction(&objects, rank(0.0));
    assert_eq!(exact.depth, 0);

    let on_floor = Manifold::new(0, 1).positional_correction(&objects, rank(0.2));
    assert_eq!(
        on_floor,
        Correction { depth: rank(0.2), moves_a: true, moves_b: false }
    );
    let under_ball = Manifold::new(1, 2).positional_correction(&objects, rank(0.2));
    assert_eq!((under_ball.moves_a, under_ball.moves_b), (false, true));
}
