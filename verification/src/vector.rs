//! Three-dimensional vectors in fixed point.

use vstd::prelude::*;
use vstd::arithmetic::div_mod::{
    lemma_div_by_multiple, lemma_div_is_ordered, lemma_div_pos_is_pos,
};
use crate::fixed::{saturate, scaled_product, trunc_div, Fixed, SCALE};
use crate::root::{
    floor_sqrt, is_floor_sqrt, isqrt, lemma_floor_sqrt_exists, lemma_square_strictly_ordered,
};

verus! {

/// A vector of three integers: the mathematical model of a [`Vec3`], and the
/// home of intermediate results too wide for one.
pub struct Int3 {
    pub x: int,
    pub y: int,
    pub z: int,
}

/// A vector of three fixed-point numbers.
#[derive(Clone, Copy, Debug, PartialEq, Eq, Structural)]
pub struct Vec3 {
    pub x: Fixed,
    pub y: Fixed,
    pub z: Fixed,
}

impl View for Vec3 {
    type V = Int3;

    open spec fn view(&self) -> Int3 {
        Int3 { x: self.x.raw as int, y: self.y.raw as int, z: self.z.raw as int }
    }
}

impl Int3 {
    /// The vector whose components are those of `self`, each as a 64-bit
    /// number. It has `self` as its view where `self` fits.
    pub open spec fn to_vec3(self) -> Vec3 {
        Vec3 {
            x: Fixed { raw: self.x as i64 },
            y: Fixed { raw: self.y as i64 },
            z: Fixed { raw: self.z as i64 },
        }
    }
}

/// The dot product.
pub open spec fn dot(a: Int3, b: Int3) -> int {
    a.x * b.x + a.y * b.y + a.z * b.z
}

/// The cross product.
pub open spec fn cross(a: Int3, b: Int3) -> Int3 {
    Int3 { x: a.y * b.z - a.z * b.y, y: a.z * b.x - a.x * b.z, z: a.x * b.y - a.y * b.x }
}

/// The length, rounded down.
pub open spec fn length(a: Int3) -> int {
    floor_sqrt(dot(a, a))
}

/// The vector of length one (`SCALE` raw units) along `a`, each component
/// rounded towards zero; the zero vector where `a` is shorter than one raw unit.
pub open spec fn unit(a: Int3) -> Int3 {
    let n = length(a);
    if n == 0 {
        Int3 { x: 0, y: 0, z: 0 }
    } else {
        Int3 {
            x: trunc_div(a.x * SCALE, n),
            y: trunc_div(a.y * SCALE, n),
            z: trunc_div(a.z * SCALE, n),
        }
    }
}

/// Componentwise sum, each component saturated.
pub open spec fn saturating_sum(a: Int3, b: Int3) -> Int3 {
    Int3 { x: saturate(a.x + b.x), y: saturate(a.y + b.y), z: saturate(a.z + b.z) }
}

/// Componentwise difference, each component saturated.
pub open spec fn saturating_difference(a: Int3, b: Int3) -> Int3 {
    Int3 { x: saturate(a.x - b.x), y: saturate(a.y - b.y), z: saturate(a.z - b.z) }
}

/// The vector `a` scaled by the fixed-point factor `k`, each component saturated.
pub open spec fn scaled(a: Int3, k: int) -> Int3 {
    Int3 {
        x: saturate(scaled_product(a.x, k)),
        y: saturate(scaled_product(a.y, k)),
        z: saturate(scaled_product(a.z, k)),
    }
}

/// No component exceeds one in magnitude.
pub open spec fn within_unit_cube(a: Int3) -> bool {
    &&& -SCALE <= a.x <= SCALE
    &&& -SCALE <= a.y <= SCALE
    &&& -SCALE <= a.z <= SCALE
}

/// Every component fits in 64 bits.
pub open spec fn fits(a: Int3) -> bool {
    &&& i64::MIN <= a.x <= i64::MAX
    &&& i64::MIN <= a.y <= i64::MAX
    &&& i64::MIN <= a.z <= i64::MAX
}

/// A component of a vector is no longer than the vector.
pub proof fn lemma_component_within_length(a: Int3)
    ensures
        0 <= length(a),
        -length(a) <= a.x <= length(a),
        -length(a) <= a.y <= length(a),
        -length(a) <= a.z <= length(a),
{
    let n2 = dot(a, a);
    assert(a.x * a.x >= 0 && a.y * a.y >= 0 && a.z * a.z >= 0) by (nonlinear_arith);
    lemma_floor_sqrt_exists(n2);
    let n = length(a);
    lemma_magnitude_within_root(a.x, n2, n);
    lemma_magnitude_within_root(a.y, n2, n);
    lemma_magnitude_within_root(a.z, n2, n);
}

/// A number whose square does not exceed `n2` lies within the root of `n2`.
proof fn lemma_magnitude_within_root(c: int, n2: int, n: int)
    requires
        is_floor_sqrt(n2, n),
        c * c <= n2,
    ensures
        -n <= c <= n,
{
    if c > n {
        lemma_square_strictly_ordered(n, c);
    }
    if c < -n {
        lemma_square_strictly_ordered(n, -c);
        assert((-c) * (-c) == c * c) by (nonlinear_arith);
    }
}

/// Dividing `c * SCALE` by a length that `c` does not exceed gives at most one.
pub proof fn lemma_unit_component(c: int, n: int)
    requires
        0 < n,
        -n <= c <= n,
    ensures
        -SCALE <= trunc_div(c * SCALE, n) <= SCALE,
{
    lemma_div_by_multiple(SCALE as int, n);
    if c >= 0 {
        assert(0 <= c * SCALE <= SCALE * n) by (nonlinear_arith)
            requires
                0 <= c <= n,
        ;
        lemma_div_is_ordered(c * SCALE, SCALE * n, n);
        lemma_div_pos_is_pos(c * SCALE, n);
    } else {
        assert(0 <= -(c * SCALE) <= SCALE * n) by (nonlinear_arith)
            requires
                -n <= c < 0,
        ;
        lemma_div_is_ordered(-(c * SCALE), SCALE * n, n);
        lemma_div_pos_is_pos(-(c * SCALE), n);
    }
}

/// A unit vector has no component beyond one.
pub proof fn lemma_unit_within_cube(a: Int3)
    ensures
        within_unit_cube(unit(a)),
{
    lemma_component_within_length(a);
    let n = length(a);
    if n != 0 {
        lemma_unit_component(a.x, n);
        lemma_unit_component(a.y, n);
        lemma_unit_component(a.z, n);
    }
}

/// The square of a 64-bit magnitude fits in 126 bits.
proof fn lemma_square_fits(c: int)
    by (nonlinear_arith)
    requires
        -0x8000_0000_0000_0000 <= c <= 0x8000_0000_0000_0000,
    ensures
        0 <= c * c <= 0x4000_0000_0000_0000_0000_0000_0000_0000,
{
}

/// One component of the unit vector: `c * SCALE / n`, rounded towards zero.
fn unit_component(c: i128, n: i128) -> (r: i64)
    requires
        0 < n,
        -n <= c <= n,
        n <= 0x1_0000_0000_0000_0000,
    ensures
        r == trunc_div(c * SCALE, n as int),
        -SCALE <= r <= SCALE,
{
    proof {
        lemma_unit_component(c as int, n as int);
        assert(-0x1_0000_0000_0000_0000 * 1_000_000_000 <= c * SCALE <= 0x1_0000_0000_0000_0000
            * 1_000_000_000) by (nonlinear_arith)
            requires
                -0x1_0000_0000_0000_0000 <= c <= 0x1_0000_0000_0000_0000,
                SCALE == 1_000_000_000,
        ;
    }
    (c * (SCALE as i128) / n) as i64
}

/// The unit vector along `(x, y, z)`.
pub fn unit_of(x: i128, y: i128, z: i128) -> (r: Vec3)
    requires
        -0x8000_0000_0000_0000 <= x <= 0x8000_0000_0000_0000,
        -0x8000_0000_0000_0000 <= y <= 0x8000_0000_0000_0000,
        -0x8000_0000_0000_0000 <= z <= 0x8000_0000_0000_0000,
    ensures
        r@ == unit(Int3 { x: x as int, y: y as int, z: z as int }),
        within_unit_cube(r@),
{
    let ghost a = Int3 { x: x as int, y: y as int, z: z as int };
    proof {
        lemma_square_fits(x as int);
        lemma_square_fits(y as int);
        lemma_square_fits(z as int);
        lemma_component_within_length(a);
        lemma_unit_within_cube(a);
    }
    let n2: u128 = (x * x) as u128 + (y * y) as u128 + (z * z) as u128;
    let n: i128 = isqrt(n2) as i128;
    if n == 0 {
        Vec3 { x: Fixed { raw: 0 }, y: Fixed { raw: 0 }, z: Fixed { raw: 0 } }
    } else {
        Vec3 {
            x: Fixed { raw: unit_component(x, n) },
            y: Fixed { raw: unit_component(y, n) },
            z: Fixed { raw: unit_component(z, n) },
        }
    }
}

impl Vec3 {
    /// The vector with the given components.
    pub fn new(x: Fixed, y: Fixed, z: Fixed) -> (r: Vec3)
        ensures
            r == (Vec3 { x, y, z }),
    {
        Vec3 { x, y, z }
    }

    /// The zero vector.
    pub fn zeros() -> (r: Vec3)
        ensures
            r@ == (Int3 { x: 0, y: 0, z: 0 }),
    {
        Vec3 { x: Fixed { raw: 0 }, y: Fixed { raw: 0 }, z: Fixed { raw: 0 } }
    }

    /// Componentwise sum; each component saturates.
    pub fn saturating_add(self, rhs: Vec3) -> (r: Vec3)
        ensures
            r@ == saturating_sum(self@, rhs@),
    {
        Vec3 {
            x: self.x.saturating_add(rhs.x),
            y: self.y.saturating_add(rhs.y),
            z: self.z.saturating_add(rhs.z),
        }
    }

    /// Componentwise difference; each component saturates.
    pub fn saturating_sub(self, rhs: Vec3) -> (r: Vec3)
        ensures
            r@ == saturating_difference(self@, rhs@),
    {
        Vec3 {
            x: self.x.saturating_sub(rhs.x),
            y: self.y.saturating_sub(rhs.y),
            z: self.z.saturating_sub(rhs.z),
        }
    }

    /// The vector scaled by `k`; each component saturates.
    pub fn scale(self, k: Fixed) -> (r: Vec3)
        ensures
            r@ == scaled(self@, k.raw as int),
    {
        Vec3 {
            x: self.x.saturating_mul(k),
            y: self.y.saturating_mul(k),
            z: self.z.saturating_mul(k),
        }
    }

    /// The unit vector along `self`, or zero for the zero vector.
    pub fn normalize(self) -> (r: Vec3)
        ensures
            r@ == unit(self@),
            within_unit_cube(r@),
    {
        unit_of(self.x.raw as i128, self.y.raw as i128, self.z.raw as i128)
    }

    /// The unit vector along the cross product of `self` and `rhs`, or zero
    /// where the two are parallel. Both must lie within the unit cube, so
    /// that the product fits the machine's integers.
    pub fn unit_cross(self, rhs: Vec3) -> (r: Vec3)
        requires
            within_unit_cube(self@),
            within_unit_cube(rhs@),
        ensures
            r@ == unit(cross(self@, rhs@)),
            within_unit_cube(r@),
    {
        let ax: i128 = self.x.raw as i128;
        let ay: i128 = self.y.raw as i128;
        let az: i128 = self.z.raw as i128;
        let bx: i128 = rhs.x.raw as i128;
        let by: i128 = rhs.y.raw as i128;
        let bz: i128 = rhs.z.raw as i128;
        proof {
            lemma_unit_product(ay as int, bz as int);
            lemma_unit_product(az as int, by as int);
            lemma_unit_product(az as int, bx as int);
            lemma_unit_product(ax as int, bz as int);
            lemma_unit_product(ax as int, by as int);
            lemma_unit_product(ay as int, bx as int);
        }
        unit_of(ay * bz - az * by, az * bx - ax * bz, ax * by - ay * bx)
    }
}

/// The product of two numbers of magnitude at most one is at most one.
pub proof fn lemma_unit_product(a: int, b: int)
    by (nonlinear_arith)
    requires
        -SCALE <= a <= SCALE,
        -SCALE <= b <= SCALE,
    ensures
        -1_000_000_000_000_000_000 <= a * b <= 1_000_000_000_000_000_000,
{
}

} // verus!
