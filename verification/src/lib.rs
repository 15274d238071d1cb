//! The decisions of a two-dimensional rigid-body engine.
//!
//! An engine for rigid bodies measures and decides in turn. It measures
//! distances, projections and speeds; it decides which pairs of bodies to
//! test, whether two shapes touch and at which feature, which contact points
//! count, what the solver does at each of them, and in which order a step
//! does its work. This library holds the decisions. Whoever uses it does the
//! measuring, in whatever arithmetic, and hands each quantity over by its
//! rank: an integer that is ordered as the quantities are.
//!
//! * [`rank`]: ranks of numbers in double precision.
//! * [`select`]: the first greatest and the first least of a list of ranks.
//! * [`shapes`]: circles and polygons, and the support point of a polygon.
//! * [`object`]: bodies and their mass data; which bodies are static.
//! * [`collision`]: the narrow phase for two circles, a circle and a polygon,
//!   and two polygons.
//! * [`manifold`]: the contact of a pair, the choice of the narrow-phase
//!   routine, and the decisions of the impulse solver.
//! * [`scene`]: the pairs that are tested and the schedule of a step.

pub mod collision;
pub mod manifold;
pub mod object;
pub mod rank;
pub mod scene;
pub mod select;
pub mod shapes;
