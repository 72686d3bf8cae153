//! Facts of integer arithmetic that the solver does not find unaided.

use vstd::prelude::*;
use vstd::arithmetic::div_mod::{lemma_div_by_multiple, lemma_div_is_ordered};
use vstd::arithmetic::mul::{lemma_mul_is_associative, lemma_mul_is_commutative};
use crate::fixed::trunc_div;

verus! {

/// A product is bounded by the product of bounds on the magnitudes of its factors.
pub proof fn lemma_product_at_most(a: int, b: int, bound_a: int, bound_b: int)
    by (nonlinear_arith)
    requires
        -bound_a <= a <= bound_a,
        -bound_b <= b <= bound_b,
    ensures
        -(bound_a * bound_b) <= a * b <= bound_a * bound_b,
{
}

/// The product of two numbers of magnitudes at least `low_a` and `low_b` has
/// magnitude at least `low_a * low_b`.
pub proof fn lemma_product_at_least(a: int, b: int, low_a: int, low_b: int)
    by (nonlinear_arith)
    requires
        0 <= low_a,
        0 <= low_b,
        a >= low_a || a <= -low_a,
        b >= low_b || b <= -low_b,
    ensures
        a * b >= low_a * low_b || a * b <= -(low_a * low_b),
{
}

/// The square of a number of magnitude at least `low` is at least `low` squared.
pub proof fn lemma_square_at_least(c: int, low: int)
    by (nonlinear_arith)
    requires
        0 <= low,
        c >= low || c <= -low,
    ensures
        c * c >= low * low,
{
}

/// From a bound on a positive multiple to a bound on the number.
pub proof fn lemma_cancel_factor(m: int, d: int, low: int, high: int)
    by (nonlinear_arith)
    requires
        m > 0,
        m * low <= m * d <= m * high,
    ensures
        low <= d <= high,
{
}

/// `x * (y * z)` with the factors in each other order.
pub proof fn lemma_triple_orders(x: int, y: int, z: int)
    by (nonlinear_arith)
    ensures
        x * (y * z) == y * (x * z),
        x * (y * z) == z * (x * y),
        x * (y * z) == x * (z * y),
{
}

/// `x * (p - q)` multiplied out.
pub proof fn lemma_times_difference(x: int, p: int, q: int)
    by (nonlinear_arith)
    ensures
        x * (p - q) == x * p - x * q,
{
}

/// `(u - v)` squared, multiplied out.
pub proof fn lemma_square_of_difference(u: int, v: int)
    by (nonlinear_arith)
    ensures
        (u - v) * (u - v) == u * u + v * v - 2 * (u * v),
{
}

/// The square of a product is the product of the squares.
pub proof fn lemma_square_of_product(p: int, q: int)
    by (nonlinear_arith)
    ensures
        (p * q) * (p * q) == (p * p) * (q * q),
{
}

/// The factors of a product of two products, paired the other way.
pub proof fn lemma_pair_other_way(p: int, s: int, q: int, r: int)
    ensures
        (p * s) * (q * r) == (p * r) * (q * s),
{
    lemma_mul_is_associative(p, s, q * r);
    lemma_triple_orders(s, q, r);
    lemma_mul_is_commutative(s, q);
    lemma_mul_is_associative(p, r, q * s);
}

/// The square of a two-by-two determinant:
/// `(p*s - q*r)^2 == (p*p)*(s*s) + (q*q)*(r*r) - 2*((p*r)*(q*s))`.
pub proof fn lemma_minor_square(p: int, q: int, r: int, s: int)
    ensures
        (p * s - q * r) * (p * s - q * r) == (p * p) * (s * s) + (q * q) * (r * r) - 2 * ((p * r)
            * (q * s)),
{
    lemma_square_of_difference(p * s, q * r);
    lemma_square_of_product(p, s);
    lemma_square_of_product(q, r);
    lemma_pair_other_way(p, s, q, r);
}

/// The product of two sums of three terms, and the square of a sum of three
/// terms, multiplied out.
pub proof fn lemma_sums_of_three(
    a1: int,
    a2: int,
    a3: int,
    b1: int,
    b2: int,
    b3: int,
    c1: int,
    c2: int,
    c3: int,
)
    by (nonlinear_arith)
    ensures
        (a1 + a2 + a3) * (b1 + b2 + b3) == a1 * b1 + a1 * b2 + a1 * b3 + a2 * b1 + a2 * b2 + a2
            * b3 + a3 * b1 + a3 * b2 + a3 * b3,
        (c1 + c2 + c3) * (c1 + c2 + c3) == c1 * c1 + c2 * c2 + c3 * c3 + 2 * (c1 * c2) + 2 * (c1
            * c3) + 2 * (c2 * c3),
{
}

/// Truncating division of a number at least as large as the divisor does
/// not give zero.
pub proof fn lemma_truncation_keeps_large(p: int, n: int)
    requires
        n > 0,
        p >= n || p <= -n,
    ensures
        p >= n ==> trunc_div(p, n) >= 1,
        p <= -n ==> trunc_div(p, n) <= -1,
{
    lemma_div_by_multiple(1, n);
    if p >= n {
        lemma_div_is_ordered(n, p, n);
    } else {
        lemma_div_is_ordered(n, -p, n);
    }
}

} // verus!
