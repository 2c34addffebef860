//! Two-dimensional vectors over fixed-point numbers.

use vstd::prelude::*;
use crate::fixed::{Fixed, diff, fx_add, fx_div, fx_mul, fx_sqrt, fx_sub, prod, quot, root, sum};

verus! {

/// A vector, or a point, of the plane.
#[derive(Debug, Clone, Copy, PartialEq, Eq, Structural)]
pub struct Vector2 {
    pub x: Fixed,
    pub y: Fixed,
}

/// A rotation of the plane, given by the cosine and the sine of its angle.
#[derive(Debug, Clone, Copy, PartialEq, Eq, Structural)]
pub struct Rotation {
    pub cos: Fixed,
    pub sin: Fixed,
}

impl Vector2 {
    /// The inner product of two vectors.
    pub open spec fn spec_dot(v1: Self, v2: Self) -> Fixed {
        sum(prod(v1.x, v2.x), prod(v1.y, v2.y))
    }

    /// The length of a vector.
    pub open spec fn spec_magnitude(self) -> Fixed {
        root(sum(prod(self.x, self.x), prod(self.y, self.y)))
    }

    /// The vector with both coordinates multiplied by `scalar`.
    pub open spec fn scaled(self, scalar: Fixed) -> Self {
        Vector2 { x: prod(self.x, scalar), y: prod(self.y, scalar) }
    }

    /// The vector divided by its length; the vector itself where that is zero.
    pub open spec fn normalized(self) -> Self {
        let mag = self.spec_magnitude();
        if mag == 0 {
            self
        } else {
            Vector2 { x: quot(self.x, mag), y: quot(self.y, mag) }
        }
    }

    /// The vector cut down to the length `max` where it is longer.
    pub open spec fn limited(self, max: Fixed) -> Self {
        if self.spec_magnitude() > max {
            self.normalized().scaled(max)
        } else {
            self
        }
    }

    /// The vector turned by `rot`.
    pub open spec fn rotated(self, rot: Rotation) -> Self {
        Vector2 {
            x: diff(prod(self.x, rot.cos), prod(self.y, rot.sin)),
            y: sum(prod(self.x, rot.sin), prod(self.y, rot.cos)),
        }
    }

    /// The coordinate-wise sum.
    pub open spec fn plus(self, rhs: Self) -> Self {
        Vector2 { x: sum(self.x, rhs.x), y: sum(self.y, rhs.y) }
    }

    /// The coordinate-wise difference.
    pub open spec fn minus(self, rhs: Self) -> Self {
        Vector2 { x: diff(self.x, rhs.x), y: diff(self.y, rhs.y) }
    }

    /// The coordinate-wise product.
    pub open spec fn times(self, rhs: Self) -> Self {
        Vector2 { x: prod(self.x, rhs.x), y: prod(self.y, rhs.y) }
    }

    /// The vector with the coordinates `x` and `y`.
    pub fn new(x: Fixed, y: Fixed) -> (v: Self)
        ensures
            v == (Vector2 { x, y }),
    {
        Self { x, y }
    }

    /// The two coordinates, `x` first.
    pub fn to_array(self) -> (a: [Fixed; 2])
        ensures
            a[0] == self.x,
            a[1] == self.y,
    {
        [self.x, self.y]
    }

    /// Multiplies both coordinates by `scalar`.
    pub fn multiply_scalar(&mut self, scalar: Fixed)
        ensures
            *final(self) == old(self).scaled(scalar),
    {
        self.x = fx_mul(self.x, scalar);
        self.y = fx_mul(self.y, scalar);
    }

    /// The inner product of two vectors.
    pub fn dot(v1: Self, v2: Self) -> (d: Fixed)
        ensures
            d == Self::spec_dot(v1, v2),
    {
        fx_add(fx_mul(v1.x, v2.x), fx_mul(v1.y, v2.y))
    }

    /// The vector `v` turned by `rot`.
    pub fn rotate(v: Self, rot: Rotation) -> (r: Self)
        ensures
            r == v.rotated(rot),
    {
        Self {
            x: fx_sub(fx_mul(v.x, rot.cos), fx_mul(v.y, rot.sin)),
            y: fx_add(fx_mul(v.x, rot.sin), fx_mul(v.y, rot.cos)),
        }
    }

    /// The length of the vector, rounded to the nearest number.
    pub fn magnitude(&self) -> (m: Fixed)
        ensures
            m == self.spec_magnitude(),
            m >= 0,
    {
        fx_sqrt(fx_add(fx_mul(self.x, self.x), fx_mul(self.y, self.y)))
    }

    /// Divides the vector by its length; a vector without length stays.
    pub fn normalize(&mut self)
        ensures
            *final(self) == old(self).normalized(),
    {
        let mag: Fixed = self.magnitude();
        if mag == 0 {
            return;
        }
        self.x = fx_div(self.x, mag);
        self.y = fx_div(self.y, mag);
    }

    /// Cuts the vector down to the length `max` if it is longer.
    pub fn limit(&mut self, max: Fixed)
        ensures
            *final(self) == old(self).limited(max),
    {
        if self.magnitude() > max {
            self.normalize();
            self.multiply_scalar(max);
        }
    }
}

impl core::ops::Add for Vector2 {
    type Output = Vector2;

    fn add(self, rhs: Self) -> (r: Vector2) {
        Self { x: fx_add(self.x, rhs.x), y: fx_add(self.y, rhs.y) }
    }
}

impl vstd::std_specs::ops::AddSpecImpl for Vector2 {
    open spec fn obeys_add_spec() -> bool {
        true
    }

    open spec fn add_req(self, rhs: Self) -> bool {
        true
    }

    open spec fn add_spec(self, rhs: Self) -> Vector2 {
        self.plus(rhs)
    }
}

impl core::ops::AddAssign for Vector2 {
    fn add_assign(&mut self, rhs: Self)
        ensures
            *final(self) == old(self).plus(rhs),
    {
        self.x = fx_add(self.x, rhs.x);
        self.y = fx_add(self.y, rhs.y);
    }
}

impl core::ops::Sub for Vector2 {
    type Output = Vector2;

    fn sub(self, rhs: Self) -> (r: Vector2) {
        Self { x: fx_sub(self.x, rhs.x), y: fx_sub(self.y, rhs.y) }
    }
}

impl vstd::std_specs::ops::SubSpecImpl for Vector2 {
    open spec fn obeys_sub_spec() -> bool {
        true
    }

    open spec fn sub_req(self, rhs: Self) -> bool {
        true
    }

    open spec fn sub_spec(self, rhs: Self) -> Vector2 {
        self.minus(rhs)
    }
}

impl core::ops::Mul for Vector2 {
    type Output = Vector2;

    fn mul(self, rhs: Self) -> (r: Vector2) {
        Self { x: fx_mul(self.x, rhs.x), y: fx_mul(self.y, rhs.y) }
    }
}

impl vstd::std_specs::ops::MulSpecImpl for Vector2 {
    open spec fn obeys_mul_spec() -> bool {
        true
    }

    open spec fn mul_req(self, rhs: Self) -> bool {
        true
    }

    open spec fn mul_spec(self, rhs: Self) -> Vector2 {
        self.times(rhs)
    }
}

impl core::ops::Mul<Fixed> for Vector2 {
    type Output = Vector2;

    fn mul(self, rhs: Fixed) -> (r: Vector2) {
        Self { x: fx_mul(self.x, rhs), y: fx_mul(self.y, rhs) }
    }
}

impl vstd::std_specs::ops::MulSpecImpl<Fixed> for Vector2 {
    open spec fn obeys_mul_spec() -> bool {
        true
    }

    open spec fn mul_req(self, rhs: Fixed) -> bool {
        true
    }

    open spec fn mul_spec(self, rhs: Fixed) -> Vector2 {
        self.scaled(rhs)
    }
}

impl core::ops::SubAssign for Vector2 {
    fn sub_assign(&mut self, rhs: Self)
        ensures
            *final(self) == old(self).minus(rhs),
    {
        self.x = fx_sub(self.x, rhs.x);
        self.y = fx_sub(self.y, rhs.y);
    }
}

impl core::ops::MulAssign<Fixed> for Vector2 {
    fn mul_assign(&mut self, rhs: Fixed)
        ensures
            *final(self) == old(self).scaled(rhs),
    {
        self.x = fx_mul(self.x, rhs);
        self.y = fx_mul(self.y, rhs);
    }
}

} // verus!
