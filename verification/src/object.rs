//! Bodies, as far as the decisions of the engine read them.

use vstd::prelude::*;
use crate::rank::{is_infinite, is_infinite_rank};
use crate::shapes::Shapes;

verus! {

/// The mass and the rotational inertia of a body, each by its rank.
#[derive(Clone, Copy, PartialEq, Eq, Structural, Debug)]
pub struct MassData {
    /// The rank of the mass.
    pub mass: i64,
    /// The rank of the rotational inertia.
    pub moment_inertia: i64,
}

impl MassData {
    /// Whether the mass is infinite. A body of infinite mass is static.
    pub open spec fn spec_is_static(&self) -> bool {
        is_infinite_rank(self.mass as int)
    }

    /// Whether the inverse mass is the reciprocal of the mass. It is zero
    /// instead where the mass is zero or infinite.
    pub open spec fn spec_inverts_mass(&self) -> bool {
        self.mass != 0 && !is_infinite_rank(self.mass as int)
    }

    /// Whether the inverse inertia is the reciprocal of the inertia. It is
    /// zero instead where the inertia is zero or infinite.
    pub open spec fn spec_inverts_inertia(&self) -> bool {
        self.moment_inertia != 0 && !is_infinite_rank(self.moment_inertia as int)
    }

    /// Mass data from the ranks of a mass and of a rotational inertia.
    pub fn new(mass: i64, moment_inertia: i64) -> (data: MassData)
        ensures
            data.mass == mass,
            data.moment_inertia == moment_inertia,
    {
        MassData { mass, moment_inertia }
    }

    /// Whether the mass is infinite.
    pub fn is_static(&self) -> (r: bool)
        ensures
            r == self.spec_is_static(),
    {
        is_infinite(self.mass)
    }

    /// Whether the inverse mass is the reciprocal of the mass, and not zero.
    pub fn inverts_mass(&self) -> (r: bool)
        ensures
            r == self.spec_inverts_mass(),
    {
        self.mass != 0 && !is_infinite(self.mass)
    }

    /// Whether the inverse inertia is the reciprocal of the inertia, and not
    /// zero.
    pub fn inverts_inertia(&self) -> (r: bool)
        ensures
            r == self.spec_inverts_inertia(),
    {
        self.moment_inertia != 0 && !is_infinite(self.moment_inertia)
    }
}

/// A body: its shape and its mass data.
#[derive(Clone, Copy, PartialEq, Eq, Structural, Debug)]
pub struct Object {
    /// The shape of the body.
    pub shape: Shapes,
    /// The mass and the rotational inertia of the body.
    pub mass_data: MassData,
}

impl Object {
    /// Whether the body is static: it has infinite mass, is never moved and
    /// never receives an impulse.
    pub open spec fn spec_is_static(&self) -> bool {
        self.mass_data.spec_is_static()
    }

    /// A body of the given shape and mass data.
    pub fn new(shape: Shapes, mass_data: MassData) -> (object: Object)
        ensures
            object.shape == shape,
            object.mass_data == mass_data,
    {
        Object { shape, mass_data }
    }

    /// Whether the body is static.
    pub fn is_static(&self) -> (r: bool)
        ensures
            r == self.spec_is_static(),
    {
        self.mass_data.is_static()
    }
}

} // verus!
