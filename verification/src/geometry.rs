//! What bringing a vector to length one keeps: right angles, and the length
//! itself, each to within a few raw units.

use vstd::prelude::*;
use vstd::arithmetic::div_mod::{lemma_div_pos_is_pos, lemma_fundamental_div_mod};
use crate::arith::{
    lemma_cancel_factor, lemma_minor_square, lemma_product_at_most, lemma_square_of_product,
    lemma_sums_of_three, lemma_times_difference, lemma_triple_orders,
};
use crate::fixed::{trunc_div, SCALE};
use crate::root::lemma_floor_sqrt_exists;
use crate::vector::{cross, dot, lemma_component_within_length, length, unit, Int3};

verus! {

/// The cross product is at right angles to both of its factors.
pub proof fn lemma_cross_right_angles(a: Int3, b: Int3)
    ensures
        dot(a, cross(a, b)) == 0,
        dot(b, cross(a, b)) == 0,
{
    lemma_times_difference(a.x, a.y * b.z, a.z * b.y);
    lemma_times_difference(a.y, a.z * b.x, a.x * b.z);
    lemma_times_difference(a.z, a.x * b.y, a.y * b.x);
    lemma_triple_orders(a.x, a.y, b.z);
    lemma_triple_orders(a.x, a.z, b.y);
    lemma_triple_orders(a.y, a.z, b.x);
    lemma_times_difference(b.x, a.y * b.z, a.z * b.y);
    lemma_times_difference(b.y, a.z * b.x, a.x * b.z);
    lemma_times_difference(b.z, a.x * b.y, a.y * b.x);
    lemma_triple_orders(b.x, a.y, b.z);
    lemma_triple_orders(b.x, a.z, b.y);
    lemma_triple_orders(b.y, a.z, b.x);
    lemma_triple_orders(b.y, a.x, b.z);
    lemma_triple_orders(b.z, a.x, b.y);
    lemma_triple_orders(b.z, a.y, b.x);
}

/// The squared length of a cross product is the product of the squared
/// lengths of its factors less the square of their dot product.
pub proof fn lemma_cross_length(a: Int3, b: Int3)
    ensures
        dot(cross(a, b), cross(a, b)) == dot(a, a) * dot(b, b) - dot(a, b) * dot(a, b),
{
    lemma_minor_square(a.y, a.z, b.y, b.z);
    lemma_minor_square(a.z, a.x, b.z, b.x);
    lemma_minor_square(a.x, a.y, b.x, b.y);
    lemma_sums_of_three(
        a.x * a.x,
        a.y * a.y,
        a.z * a.z,
        b.x * b.x,
        b.y * b.y,
        b.z * b.z,
        a.x * b.x,
        a.y * b.y,
        a.z * b.z,
    );
    lemma_square_of_product(a.x, b.x);
    lemma_square_of_product(a.y, b.y);
    lemma_square_of_product(a.z, b.z);
}

/// What truncation drops from a component of a unit vector, times the
/// length `n`: `c * SCALE` less `n` times the component.
pub open spec fn unit_remainder(c: int, n: int) -> int {
    c * SCALE - trunc_div(c * SCALE, n) * n
}

/// The remainder is smaller than the length, and both it and the component
/// of the unit vector have the sign of the component they come from.
pub proof fn lemma_unit_remainder(c: int, n: int)
    requires
        n > 0,
    ensures
        c >= 0 ==> 0 <= unit_remainder(c, n) < n,
        c <= 0 ==> -n < unit_remainder(c, n) <= 0,
        c >= 0 ==> 0 <= trunc_div(c * SCALE, n),
        c <= 0 ==> trunc_div(c * SCALE, n) <= 0,
{
    let p = c * SCALE;
    assert((c >= 0 ==> p >= 0) && (c <= 0 ==> p <= 0)) by (nonlinear_arith)
        requires
            p == c * SCALE,
            SCALE > 0,
    ;
    if p >= 0 {
        lemma_fundamental_div_mod(p, n);
        lemma_div_pos_is_pos(p, n);
        assert(n * (p / n) == (p / n) * n) by (nonlinear_arith);
    } else {
        lemma_fundamental_div_mod(-p, n);
        lemma_div_pos_is_pos(-p, n);
        assert((-((-p) / n)) * n == -(n * ((-p) / n))) by (nonlinear_arith);
    }
}

/// The magnitude of `c`.
pub open spec fn magnitude(c: int) -> int {
    if c < 0 {
        -c
    } else {
        c
    }
}

/// The sum of the magnitudes of the components.
pub open spec fn taxicab(w: Int3) -> int {
    magnitude(w.x) + magnitude(w.y) + magnitude(w.z)
}

/// With `r` the remainder of the component `u` of a unit vector,
/// `n * (w * u)` is `w * a * SCALE` less `w * r`.
proof fn lemma_scaled_component(w: int, a: int, u: int, n: int, r: int)
    by (nonlinear_arith)
    requires
        r == a * SCALE - u * n,
    ensures
        n * (w * u) == (w * a) * SCALE - w * r,
{
}

/// A vector at right angles to `a` is nearly at right angles to the unit
/// vector along `a`: their dot product is at most the sum of the magnitudes
/// of its components, in raw units.
pub proof fn lemma_unit_keeps_right_angle(w: Int3, a: Int3)
    requires
        dot(w, a) == 0,
    ensures
        -taxicab(w) <= dot(w, unit(a)) <= taxicab(w),
{
    let n = length(a);
    lemma_component_within_length(a);
    if n == 0 {
        assert(dot(w, unit(a)) == 0) by (nonlinear_arith)
            requires
                unit(a) == (Int3 { x: 0, y: 0, z: 0 }),
        ;
    } else {
        let u = unit(a);
        let rx = unit_remainder(a.x, n);
        let ry = unit_remainder(a.y, n);
        let rz = unit_remainder(a.z, n);
        lemma_unit_remainder(a.x, n);
        lemma_unit_remainder(a.y, n);
        lemma_unit_remainder(a.z, n);
        lemma_product_at_most(w.x, rx, magnitude(w.x), n - 1);
        lemma_product_at_most(w.y, ry, magnitude(w.y), n - 1);
        lemma_product_at_most(w.z, rz, magnitude(w.z), n - 1);
        let d = dot(w, u);
        let t = taxicab(w);
        lemma_scaled_component(w.x, a.x, u.x, n, rx);
        lemma_scaled_component(w.y, a.y, u.y, n, ry);
        lemma_scaled_component(w.z, a.z, u.z, n, rz);
        assert(n * d == n * (w.x * u.x) + n * (w.y * u.y) + n * (w.z * u.z)) by (nonlinear_arith)
            requires
                d == w.x * u.x + w.y * u.y + w.z * u.z,
        ;
        assert((w.x * a.x) * SCALE + (w.y * a.y) * SCALE + (w.z * a.z) * SCALE == 0)
            by (nonlinear_arith)
            requires
                w.x * a.x + w.y * a.y + w.z * a.z == 0,
        ;
        assert(n * d == -(w.x * rx + w.y * ry + w.z * rz));
        assert(magnitude(w.x) * (n - 1) + magnitude(w.y) * (n - 1) + magnitude(w.z) * (n - 1) == t
            * (n - 1)) by (nonlinear_arith)
            requires
                t == magnitude(w.x) + magnitude(w.y) + magnitude(w.z),
        ;
        assert(-t <= d <= t) by (nonlinear_arith)
            requires
                n > 0,
                t >= 0,
                -(t * (n - 1)) <= n * d <= t * (n - 1),
        ;
    }
}

/// The square of a component `u` of a unit vector, times the squared length,
/// against the square of the component `a` it came from, times `SCALE`
/// squared: truncation makes it smaller, by at most `2 * SCALE * n * n`.
proof fn lemma_component_square(a: int, u: int, n: int, r: int)
    requires
        n > 0,
        -n <= a <= n,
        r == a * SCALE - u * n,
        a >= 0 ==> 0 <= r < n && 0 <= u,
        a <= 0 ==> -n < r <= 0 && u <= 0,
    ensures
        (a * a) * (SCALE * SCALE) - 2 * (SCALE * (n * n)) <= (u * u) * (n * n),
        (u * u) * (n * n) <= (a * a) * (SCALE * SCALE),
{
    let p = a * SCALE;
    let q = u * n;
    assert(p * p == (a * a) * (SCALE * SCALE)) by (nonlinear_arith)
        requires
            p == a * SCALE,
    ;
    assert(q * q == (u * u) * (n * n)) by (nonlinear_arith)
        requires
            q == u * n,
    ;
    assert(0 <= p * r <= SCALE * (n * n)) by (nonlinear_arith)
        requires
            p == a * SCALE,
            n > 0,
            SCALE > 0,
            (0 <= a <= n && 0 <= r < n) || (-n <= a <= 0 && -n < r <= 0),
    ;
    assert(q * q == p * p - 2 * (p * r) + r * r) by (nonlinear_arith)
        requires
            q == p - r,
    ;
    assert(r * r >= 0) by (nonlinear_arith);
    assert((a >= 0 ==> p >= 0 && q >= 0) && (a <= 0 ==> p <= 0 && q <= 0)) by (nonlinear_arith)
        requires
            p == a * SCALE,
            q == u * n,
            SCALE > 0,
            n > 0,
            a >= 0 ==> u >= 0,
            a <= 0 ==> u <= 0,
    ;
    assert(q * q <= p * p) by (nonlinear_arith)
        requires
            (0 <= q <= p) || (p <= q <= 0),
    ;
}

/// The unit vector along a vector of at least one raw unit has squared
/// length at least one less six billionths, and at most three; along a
/// vector of length at least one it has squared length at most one and two
/// billionths.
pub proof fn lemma_unit_length(a: Int3)
    requires
        length(a) > 0,
    ensures
        dot(unit(a), unit(a)) >= SCALE * SCALE - 6 * SCALE,
        dot(unit(a), unit(a)) <= 3 * (SCALE * SCALE),
        length(a) >= SCALE ==> dot(unit(a), unit(a)) <= SCALE * SCALE + 2 * SCALE,
{
    let n = length(a);
    let n2 = dot(a, a);
    let u = unit(a);
    let d = dot(u, u);
    let s2 = SCALE * SCALE;
    lemma_component_within_length(a);
    assert(a.x * a.x >= 0 && a.y * a.y >= 0 && a.z * a.z >= 0) by (nonlinear_arith);
    lemma_floor_sqrt_exists(n2);
    lemma_unit_remainder(a.x, n);
    lemma_unit_remainder(a.y, n);
    lemma_unit_remainder(a.z, n);
    lemma_component_square(a.x, u.x, n, unit_remainder(a.x, n));
    lemma_component_square(a.y, u.y, n, unit_remainder(a.y, n));
    lemma_component_square(a.z, u.z, n, unit_remainder(a.z, n));
    let m = n * n;
    assert(m > 0) by (nonlinear_arith)
        requires
            m == n * n,
            n > 0,
    ;
    assert(d * m == (u.x * u.x) * m + (u.y * u.y) * m + (u.z * u.z) * m) by (nonlinear_arith)
        requires
            d == u.x * u.x + u.y * u.y + u.z * u.z,
    ;
    assert(n2 * s2 == (a.x * a.x) * s2 + (a.y * a.y) * s2 + (a.z * a.z) * s2) by (nonlinear_arith)
        requires
            n2 == a.x * a.x + a.y * a.y + a.z * a.z,
    ;
    assert(m * s2 <= n2 * s2) by (nonlinear_arith)
        requires
            m <= n2,
            s2 > 0,
    ;
    assert(m * (s2 - 6 * SCALE) == m * s2 - 6 * (SCALE * m)) by (nonlinear_arith);
    assert(n2 * s2 <= m * (3 * s2)) by (nonlinear_arith)
        requires
            n2 < (n + 1) * (n + 1),
            m == n * n,
            n >= 1,
            s2 > 0,
    ;
    assert(m * d == d * m) by (nonlinear_arith);
    lemma_cancel_factor(m, d, s2 - 6 * SCALE, 3 * s2);
    if n >= SCALE {
        assert(n2 * s2 <= m * (s2 + 2 * SCALE)) by (nonlinear_arith)
            requires
                n2 < (n + 1) * (n + 1),
                m == n * n,
                n >= SCALE,
                s2 == SCALE * SCALE,
                SCALE > 0,
        ;
        lemma_cancel_factor(m, d, s2 - 6 * SCALE, s2 + 2 * SCALE);
    }
}

} // verus!
