//! Geometry, forces and bodies.
//!
//! A `Position` is a point in the plane, a `Force` a two-component
//! accumulator, and a `Planet` a point mass with identity, mass, radius,
//! position and velocity.  Every function mirrors its specification bit for
//! bit: the contracts below pin each result as an expression over the
//! IEEE-754 operations of [`crate::fp`] and [`crate::trig`].

use vstd::prelude::*;

use crate::fp::Scalar;
use crate::fp::abs_bits;
use crate::fp::is_finite_bits;
use crate::fp::is_nan_bits;
use crate::fp::is_zero_bits;
use crate::fp::flip_sign_bits;
use crate::fp::lt_bits;
use crate::fp::scal_add;
use crate::fp::scal_div;
use crate::fp::scal_is_finite;
use crate::fp::scal_is_zero;
use crate::fp::scal_lt;
use crate::fp::scal_mul;
use crate::fp::scal_sub;
use crate::fp::single_add;
use crate::fp::single_div;
use crate::fp::single_mul;
use crate::fp::single_sub;
use crate::fp::GRAVITY_BITS;
use crate::fp::HALF_BITS;
use crate::fp::HALF_PI_BITS;
use crate::fp::NEG_HALF_PI_BITS;
use crate::fp::NEG_ONE_BITS;
use crate::fp::NEG_PI_BITS;
use crate::fp::ONE_BITS;
use crate::fp::PI_BITS;
use crate::fp::POS_ZERO;
use crate::fp::QNAN_BITS;
use crate::trig::scal_atan;
use crate::trig::scal_cos;
use crate::trig::scal_sin;
use crate::trig::spec_atan;
use crate::trig::spec_cos;
use crate::trig::spec_sin;

verus! {

/// A point in the plane.
#[derive(Clone, Copy, PartialEq, Eq, Structural, Debug)]
pub struct Position {
    pub x: Scalar,
    pub y: Scalar,
}

/// A velocity, one component per axis.
#[derive(Clone, Copy, PartialEq, Eq, Structural, Debug)]
pub struct Velocity(pub Scalar, pub Scalar);

/// An acceleration, one component per axis.
#[derive(Clone, Copy, PartialEq, Eq, Structural, Debug)]
pub struct Acceleration(pub Scalar, pub Scalar);

/// A force, one component per axis.
#[derive(Clone, Copy, PartialEq, Eq, Structural, Debug)]
pub struct Force(pub Scalar, pub Scalar);

/// A point mass.  The identifier is the key of every table the engine
/// builds; mass and radius never change after construction.
#[derive(Clone, Debug)]
pub struct Planet {
    pub id: String,
    pub mass: Scalar,
    pub radius: Scalar,
    pub position: Position,
    pub velocity: Velocity,
}

/// Why a body or a system was rejected at construction.
#[derive(Clone, Copy, PartialEq, Eq, Structural, Debug)]
pub enum SimError {
    /// The mass is not a positive finite number.
    InvalidMass,
    /// A coordinate, velocity component or the radius is not finite.
    NonFiniteValue,
    /// Two bodies carry the same identifier.
    DuplicateId,
}

/// A mass must be positive and finite: the integrator divides by it.
pub open spec fn spec_mass_valid(m: Scalar) -> bool {
    is_finite_bits(m.0) && lt_bits(POS_ZERO, m.0)
}

pub open spec fn spec_position_finite(p: Position) -> bool {
    is_finite_bits(p.x.0) && is_finite_bits(p.y.0)
}

pub open spec fn spec_velocity_finite(v: Velocity) -> bool {
    is_finite_bits(v.0.0) && is_finite_bits(v.1.0)
}

/// The component-wise difference from `a` to `b`.
pub open spec fn spec_diff(a: Position, b: Position) -> (Scalar, Scalar) {
    (Scalar(single_sub(b.x.0, a.x.0)), Scalar(single_sub(b.y.0, a.y.0)))
}

/// The squared distance dx^2 + dy^2.
pub open spec fn spec_dist2(a: Position, b: Position) -> Scalar {
    let (dx, dy) = spec_diff(a, b);
    Scalar(single_add(single_mul(dx.0, dx.0), single_mul(dy.0, dy.0)))
}

/// The signed angle, in radians from the positive x axis, of the vector from
/// `a` to `b`.  The branch structure is part of the contract: a vertical
/// vector answers +-pi/2 (0 for coincident points), a vector along the
/// negative x axis answers -pi, and otherwise the arctangent of dy/dx is
/// shifted by +-pi in the left half-plane.
pub open spec fn spec_angle(a: Position, b: Position) -> Scalar {
    let (dx, dy) = spec_diff(a, b);
    if is_zero_bits(dx.0) {
        if lt_bits(POS_ZERO, dy.0) {
            Scalar(HALF_PI_BITS)
        } else if lt_bits(dy.0, POS_ZERO) {
            Scalar(NEG_HALF_PI_BITS)
        } else {
            Scalar(POS_ZERO)
        }
    } else if is_zero_bits(dy.0) && lt_bits(dx.0, POS_ZERO) {
        Scalar(NEG_PI_BITS)
    } else {
        let theta = spec_atan(single_div(dy.0, dx.0));
        if lt_bits(dx.0, POS_ZERO) {
            let sg: u32 = if lt_bits(POS_ZERO, dy.0) {
                ONE_BITS
            } else if lt_bits(dy.0, POS_ZERO) {
                NEG_ONE_BITS
            } else {
                QNAN_BITS
            };
            Scalar(single_add(theta, single_mul(sg, PI_BITS)))
        } else {
            Scalar(theta)
        }
    }
}

impl Position {
    pub fn new(x: Scalar, y: Scalar) -> (r: Position)
        ensures
            r == (Position { x, y }),
    {
        Position { x, y }
    }

    /// The distance to travel from `self` to `point`, per axis.
    pub fn difference_in_distance_from_point(&self, point: &Position) -> (r: (Scalar, Scalar))
        ensures
            r == spec_diff(*self, *point),
            *self == *point && spec_position_finite(*self) ==> r == (Scalar(POS_ZERO), Scalar(
                POS_ZERO,
            )),
    {
        let x_distance = scal_sub(point.x, self.x);
        let y_distance = scal_sub(point.y, self.y);
        (x_distance, y_distance)
    }

    /// The squared distance between the two points; +0 for coincident finite
    /// points.
    pub fn distance_squared_from_point(&self, point: &Position) -> (r: Scalar)
        ensures
            r == spec_dist2(*self, *point),
            *self == *point && spec_position_finite(*self) ==> r == Scalar(POS_ZERO),
    {
        let (x_distance, y_distance) = self.difference_in_distance_from_point(point);
        proof {
            crate::fp::lemma_const_bits();
        }
        scal_add(scal_mul(x_distance, x_distance), scal_mul(y_distance, y_distance))
    }

    /// The angle from `self` to `point`, where a zero angle is the x axis.
    /// The last four clauses restate the quadrant conventions of the
    /// vertical and horizontal cases.
    pub fn angle_to_point(&self, point: &Position) -> (r: Scalar)
        ensures
            r == spec_angle(*self, *point),
            is_zero_bits(spec_diff(*self, *point).0.0) && lt_bits(
                POS_ZERO,
                spec_diff(*self, *point).1.0,
            ) ==> r == Scalar(HALF_PI_BITS),
            is_zero_bits(spec_diff(*self, *point).0.0) && lt_bits(
                spec_diff(*self, *point).1.0,
                POS_ZERO,
            ) ==> r == Scalar(NEG_HALF_PI_BITS),
            is_zero_bits(spec_diff(*self, *point).0.0) && is_zero_bits(
                spec_diff(*self, *point).1.0,
            ) ==> r == Scalar(POS_ZERO),
            !is_zero_bits(spec_diff(*self, *point).0.0) && is_zero_bits(
                spec_diff(*self, *point).1.0,
            ) && lt_bits(spec_diff(*self, *point).0.0, POS_ZERO) ==> r == Scalar(NEG_PI_BITS),
    {
        let (x_distance, y_distance) = self.difference_in_distance_from_point(point);
        proof {
            crate::fp::lemma_const_bits();
        }
        if scal_is_zero(x_distance) {
            if scal_lt(Scalar(POS_ZERO), y_distance) {
                return Scalar(HALF_PI_BITS);
            } else if scal_lt(y_distance, Scalar(POS_ZERO)) {
                return Scalar(NEG_HALF_PI_BITS);
            } else {
                return Scalar(POS_ZERO);
            }
        }
        if scal_is_zero(y_distance) {
            if scal_lt(x_distance, Scalar(POS_ZERO)) {
                return Scalar(NEG_PI_BITS);
            }
        }
        let tan_theta = scal_div(y_distance, x_distance);
        let theta = scal_atan(tan_theta);
        if scal_lt(x_distance, Scalar(POS_ZERO)) {
            let sg: Scalar = if scal_lt(Scalar(POS_ZERO), y_distance) {
                Scalar(ONE_BITS)
            } else if scal_lt(y_distance, Scalar(POS_ZERO)) {
                Scalar(NEG_ONE_BITS)
            } else {
                Scalar(QNAN_BITS)
            };
            return scal_add(theta, scal_mul(sg, Scalar(PI_BITS)));
        }
        theta
    }
}

/// f / m, per axis.
pub open spec fn spec_to_acceleration(f: Force, mass: Scalar) -> Acceleration {
    Acceleration(Scalar(single_div(f.0.0, mass.0)), Scalar(single_div(f.1.0, mass.0)))
}

/// Component-wise sum.
pub open spec fn spec_force_add(a: Force, b: Force) -> Force {
    Force(Scalar(single_add(a.0.0, b.0.0)), Scalar(single_add(a.1.0, b.1.0)))
}

/// Component-wise product with a scalar.
pub open spec fn spec_force_scale(f: Force, s: Scalar) -> Force {
    Force(Scalar(single_mul(f.0.0, s.0)), Scalar(single_mul(f.1.0, s.0)))
}

impl Force {
    /// The acceleration this force gives a body of the given mass.
    pub fn to_acceleration(&self, mass: Scalar) -> (r: Acceleration)
        ensures
            r == spec_to_acceleration(*self, mass),
    {
        Acceleration(scal_div(self.0, mass), scal_div(self.1, mass))
    }

    /// Accumulates `force` into `self`, component-wise.
    pub fn append_force(&mut self, force: &Force)
        ensures
            *final(self) == spec_force_add(*old(self), *force),
    {
        self.0 = scal_add(self.0, force.0);
        self.1 = scal_add(self.1, force.1);
    }

    /// The component-wise sum of the two forces, as a new force.
    pub fn add(&self, other: &Force) -> (r: Force)
        ensures
            r == spec_force_add(*self, *other),
    {
        Force(scal_add(self.0, other.0), scal_add(self.1, other.1))
    }

    /// The force scaled component-wise.  Scaling by -1.0 is the exact
    /// IEEE-754 negation whenever the components are not NaN: this is how
    /// the force table obtains the reaction force of a pair.
    pub fn mul(&self, rhs: Scalar) -> (r: Force)
        ensures
            r == spec_force_scale(*self, rhs),
            rhs.0 == NEG_ONE_BITS && !is_nan_bits(self.0.0) && !is_nan_bits(self.1.0) ==> r
                == Force(Scalar(flip_sign_bits(self.0.0)), Scalar(flip_sign_bits(self.1.0))),
    {
        Force(scal_mul(self.0, rhs), scal_mul(self.1, rhs))
    }
}

/// The magnitude of the gravitational attraction between two bodies: zero
/// for coincident bodies, else G * m_a * m_b / r^2, the larger mass
/// multiplied first.
pub open spec fn spec_force_abs(a: Planet, b: Planet) -> Scalar {
    let r2 = spec_dist2(a.position, b.position);
    if is_zero_bits(r2.0) {
        Scalar(POS_ZERO)
    } else if lt_bits(b.mass.0, a.mass.0) {
        Scalar(single_div(single_mul(single_mul(a.mass.0, b.mass.0), GRAVITY_BITS), r2.0))
    } else {
        Scalar(single_div(single_mul(single_mul(b.mass.0, a.mass.0), GRAVITY_BITS), r2.0))
    }
}

/// The force exerted on `a` by `b`: the magnitude above, directed along the
/// angle from `a` to `b` (attractive).
pub open spec fn spec_grav_force(a: Planet, b: Planet) -> Force {
    let f = spec_force_abs(a, b);
    let ang = spec_angle(a.position, b.position);
    Force(Scalar(single_mul(f.0, spec_cos(ang.0))), Scalar(single_mul(f.0, spec_sin(ang.0))))
}

/// The displacement s = u t + (0.5 a) (t t) of the SUVAT relation, with the
/// pre-update velocity component u.
pub open spec fn spec_displacement(u: Scalar, a: Scalar, t: Scalar) -> Scalar {
    Scalar(
        single_add(single_mul(u.0, t.0), single_mul(single_mul(HALF_BITS, a.0), single_mul(t.0, t.0))),
    )
}

/// The updated velocity u + a t.
pub open spec fn spec_new_velocity(u: Scalar, a: Scalar, t: Scalar) -> Scalar {
    Scalar(single_add(u.0, single_mul(a.0, t.0)))
}

/// One explicit-Euler step of a body under a net force: the position moves
/// by the SUVAT displacement computed from the pre-update velocity, and the
/// velocity is then advanced by a t.  Identity, mass and radius are kept.
pub open spec fn spec_apply_force(p: Planet, force: Force, t: Scalar) -> Planet {
    let acc = spec_to_acceleration(force, p.mass);
    Planet {
        position: Position {
            x: Scalar(single_add(p.position.x.0, spec_displacement(p.velocity.0, acc.0, t).0)),
            y: Scalar(single_add(p.position.y.0, spec_displacement(p.velocity.1, acc.1, t).0)),
        },
        velocity: Velocity(spec_new_velocity(p.velocity.0, acc.0, t), spec_new_velocity(p.velocity.1, acc.1, t)),
        ..p
    }
}

fn calculate_displacement(u: Scalar, a: Scalar, t: Scalar) -> (r: Scalar)
    ensures
        r == spec_displacement(u, a, t),
{
    scal_add(scal_mul(u, t), scal_mul(scal_mul(Scalar(HALF_BITS), a), scal_mul(t, t)))
}

fn calculate_new_velocity(u: Scalar, a: Scalar, t: Scalar) -> (r: Scalar)
    ensures
        r == spec_new_velocity(u, a, t),
{
    scal_add(u, scal_mul(a, t))
}

impl Planet {
    /// Builds a body after validating its numbers: the mass must be a
    /// positive finite value (the integrator divides by it) and every other
    /// quantity finite.
    pub fn new(id: String, mass: Scalar, radius: Scalar, position: Position, velocity: Velocity) -> (r:
        Result<Planet, SimError>)
        ensures
            match r {
                Ok(p) => spec_mass_valid(mass) && is_finite_bits(radius.0) && spec_position_finite(
                    position,
                ) && spec_velocity_finite(velocity) && p.id == id && p.mass == mass && p.radius
                    == radius && p.position == position && p.velocity == velocity,
                Err(e) => (!spec_mass_valid(mass) || !is_finite_bits(radius.0)
                    || !spec_position_finite(position) || !spec_velocity_finite(velocity)) && e == (
                if !spec_mass_valid(mass) {
                    SimError::InvalidMass
                } else {
                    SimError::NonFiniteValue
                }),
            },
    {
        if !(scal_is_finite(mass) && scal_lt(Scalar(POS_ZERO), mass)) {
            return Err(SimError::InvalidMass);
        }
        if !scal_is_finite(radius) {
            return Err(SimError::NonFiniteValue);
        }
        if !(scal_is_finite(position.x) && scal_is_finite(position.y)) {
            return Err(SimError::NonFiniteValue);
        }
        if !(scal_is_finite(velocity.0) && scal_is_finite(velocity.1)) {
            return Err(SimError::NonFiniteValue);
        }
        Ok(Planet { id, mass, radius, position, velocity })
    }

    /// The magnitude of the gravitational force between `self` and
    /// `other_planet`; zero when the two bodies coincide.
    pub fn calculate_gravitational_force_abs(&self, other_planet: &Planet) -> (r: Scalar)
        ensures
            r == spec_force_abs(*self, *other_planet),
            is_zero_bits(spec_dist2(self.position, other_planet.position).0) ==> r == Scalar(
                POS_ZERO,
            ),
            self.position == other_planet.position && spec_position_finite(self.position) ==> r
                == Scalar(POS_ZERO),
    {
        let r_squared = self.position.distance_squared_from_point(&other_planet.position);
        proof {
            crate::fp::lemma_const_bits();
        }
        if scal_is_zero(r_squared) {
            return Scalar(POS_ZERO);
        }
        if scal_lt(other_planet.mass, self.mass) {
            return scal_div(
                scal_mul(scal_mul(self.mass, other_planet.mass), Scalar(GRAVITY_BITS)),
                r_squared,
            );
        }
        scal_div(scal_mul(scal_mul(other_planet.mass, self.mass), Scalar(GRAVITY_BITS)), r_squared)
    }

    /// The force applied on `self` as a result of `other_planet`.
    pub fn calculate_gravitational_force(&self, other_planet: &Planet) -> (r: Force)
        ensures
            r == spec_grav_force(*self, *other_planet),
    {
        let force = self.calculate_gravitational_force_abs(other_planet);
        let angle_to_planet = self.position.angle_to_point(&other_planet.position);
        Force(scal_mul(force, scal_cos(angle_to_planet)), scal_mul(force, scal_sin(angle_to_planet)))
    }

    /// Advances this body one time step under the given net force.
    pub fn apply_force(&mut self, force: &Force, time: Scalar)
        ensures
            *final(self) == spec_apply_force(*old(self), *force, time),
            final(self).id == old(self).id,
            final(self).mass == old(self).mass,
            final(self).radius == old(self).radius,
    {
        let accel = force.to_acceleration(self.mass);
        let s_x = calculate_displacement(self.velocity.0, accel.0, time);
        let s_y = calculate_displacement(self.velocity.1, accel.1, time);
        self.position = Position::new(scal_add(self.position.x, s_x), scal_add(self.position.y, s_y));
        let v_x = calculate_new_velocity(self.velocity.0, accel.0, time);
        let v_y = calculate_new_velocity(self.velocity.1, accel.1, time);
        self.velocity = Velocity(v_x, v_y);
    }

    /// A copy of the current position.
    pub fn get_position_clone(&self) -> (r: Position)
        ensures
            r == self.position,
    {
        self.position
    }
}

} // verus!
