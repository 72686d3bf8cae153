//! The camera's basis as a function of yaw, pitch and the world's up
//! direction, and the proof that it is orthonormal.

use vstd::prelude::*;
use vstd::arithmetic::div_mod::lemma_div_by_multiple;
use crate::arith::{
    lemma_product_at_least, lemma_product_at_most, lemma_square_at_least,
    lemma_truncation_keeps_large,
};
use crate::fixed::{trunc_div, SCALE};
use crate::geometry::{
    lemma_cross_length, lemma_cross_right_angles, lemma_unit_keeps_right_angle, lemma_unit_length,
    taxicab,
};
use crate::root::{lemma_floor_sqrt_at_least, lemma_floor_sqrt_below, lemma_floor_sqrt_unique};
use crate::trig::{
    cosine, lemma_cosine_clear_of_zero, lemma_full_turn, lemma_quarter_turns,
    lemma_sine_cosine_bounds, lemma_sine_or_cosine_large, sine, FULL_TURN, QUARTER_TURN,
};
use crate::vector::{cross, dot, lemma_unit_within_cube, length, unit, within_unit_cube, Int3};

verus! {

/// The direction in which yaw and pitch point, before it is brought to
/// length one: `(cos yaw * cos pitch, sin pitch, sin yaw * cos pitch)`, in
/// units of `SCALE * SCALE`.
pub open spec fn heading(yaw: int, pitch: int) -> Int3 {
    Int3 {
        x: cosine(yaw) * cosine(pitch),
        y: sine(pitch) * SCALE,
        z: sine(yaw) * cosine(pitch),
    }
}

/// The unit vector in which a camera of the given yaw and pitch looks.
pub open spec fn front_of(yaw: int, pitch: int) -> Int3 {
    unit(heading(yaw, pitch))
}

/// The unit vector to the right of `front`, level with respect to
/// `world_up`: along the cross product of `front` and `world_up`.
pub open spec fn right_of(front: Int3, world_up: Int3) -> Int3 {
    unit(cross(front, unit(world_up)))
}

/// The unit vector along the cross product of `right` and `front`.
pub open spec fn up_of(right: Int3, front: Int3) -> Int3 {
    unit(cross(right, front))
}

/// The world's usual up direction: the positive Y axis.
pub open spec fn level_up() -> Int3 {
    Int3 { x: 0, y: SCALE as int, z: 0 }
}

/// `d` differs from `target` by at most `tolerance`.
pub open spec fn near(d: int, target: int, tolerance: int) -> bool {
    target - tolerance <= d <= target + tolerance
}

/// The three vectors have length one and are at right angles to each other:
/// each squared length is within `tolerance` of one, which is
/// `SCALE * SCALE`, and each dot product within `tolerance` of zero.
pub open spec fn orthonormal_within(f: Int3, r: Int3, u: Int3, tolerance: int) -> bool {
    &&& near(dot(f, f), SCALE * SCALE, tolerance)
    &&& near(dot(r, r), SCALE * SCALE, tolerance)
    &&& near(dot(u, u), SCALE * SCALE, tolerance)
    &&& near(dot(f, r), 0, tolerance)
    &&& near(dot(f, u), 0, tolerance)
    &&& near(dot(r, u), 0, tolerance)
}

/// One part in a hundred thousand of `SCALE * SCALE`.
pub open spec fn hundred_thousandth() -> int {
    10_000_000_000_000
}

/// The heading is at least 0.49 long and shorter than two, in units of
/// `SCALE * SCALE`.
pub proof fn lemma_heading_length(yaw: int, pitch: int)
    ensures
        490_000_000_000_000_000 <= length(heading(yaw, pitch)) < 2 * (SCALE * SCALE),
{
    let h = heading(yaw, pitch);
    let s2: int = SCALE * SCALE;
    let low: int = 490_000_000_000_000_000;
    lemma_sine_cosine_bounds(yaw);
    lemma_sine_cosine_bounds(pitch);
    lemma_sine_or_cosine_large(yaw);
    lemma_sine_or_cosine_large(pitch);
    lemma_product_at_most(cosine(yaw), cosine(pitch), SCALE as int, SCALE as int);
    lemma_product_at_most(sine(pitch), SCALE as int, SCALE as int, SCALE as int);
    lemma_product_at_most(sine(yaw), cosine(pitch), SCALE as int, SCALE as int);
    lemma_product_at_most(h.x, h.x, s2, s2);
    lemma_product_at_most(h.y, h.y, s2, s2);
    lemma_product_at_most(h.z, h.z, s2, s2);
    lemma_square_at_least(h.x, 0);
    lemma_square_at_least(h.y, 0);
    lemma_square_at_least(h.z, 0);
    assert((2 * s2) * (2 * s2) == 4 * (s2 * s2)) by (nonlinear_arith);
    assert(s2 * s2 > 0) by (nonlinear_arith)
        requires
            s2 > 0,
    ;
    lemma_floor_sqrt_below(dot(h, h), 2 * s2);
    if sine(pitch) >= 700_000_000 || sine(pitch) <= -700_000_000 {
        lemma_product_at_least(sine(pitch), SCALE as int, 700_000_000, SCALE as int);
        lemma_square_at_least(h.y, low);
    } else if cosine(yaw) >= 700_000_000 || cosine(yaw) <= -700_000_000 {
        lemma_product_at_least(cosine(yaw), cosine(pitch), 700_000_000, 700_000_000);
        lemma_square_at_least(h.x, low);
    } else {
        lemma_product_at_least(sine(yaw), cosine(pitch), 700_000_000, 700_000_000);
        lemma_square_at_least(h.z, low);
    }
    lemma_floor_sqrt_at_least(dot(h, h), low);
}

/// Whatever the yaw and the pitch, the front vector lies within the unit
/// cube and has length one to within six billionths.
pub proof fn lemma_front_unit(yaw: int, pitch: int)
    ensures
        within_unit_cube(front_of(yaw, pitch)),
        near(dot(front_of(yaw, pitch), front_of(yaw, pitch)), SCALE * SCALE, 6 * SCALE),
{
    let h = heading(yaw, pitch);
    lemma_heading_length(yaw, pitch);
    lemma_unit_within_cube(h);
    lemma_unit_length(h);
}

/// Yaw wraps: a full turn more gives the same front vector.
pub proof fn lemma_yaw_wraps(yaw: int, pitch: int)
    ensures
        front_of(yaw + FULL_TURN, pitch) == front_of(yaw, pitch),
{
    lemma_full_turn(yaw);
}

/// With the pitch at most eighty-nine degrees either way, the front vector
/// does not point along the Y axis: its X or its Z component is not zero.
pub proof fn lemma_front_off_axis(yaw: int, pitch: int)
    requires
        -89 * SCALE <= pitch <= 89 * SCALE,
    ensures
        front_of(yaw, pitch).x != 0 || front_of(yaw, pitch).z != 0,
{
    let h = heading(yaw, pitch);
    let n = length(h);
    lemma_heading_length(yaw, pitch);
    lemma_sine_cosine_bounds(yaw);
    lemma_sine_or_cosine_large(yaw);
    lemma_cosine_clear_of_zero(pitch);
    if cosine(yaw) >= 700_000_000 || cosine(yaw) <= -700_000_000 {
        lemma_product_at_least(cosine(yaw), cosine(pitch), 700_000_000, 17_000_000);
        lemma_product_at_least(h.x, SCALE as int, 11_900_000_000_000_000, SCALE as int);
        lemma_truncation_keeps_large(h.x * SCALE, n);
    } else {
        lemma_product_at_least(sine(yaw), cosine(pitch), 700_000_000, 17_000_000);
        lemma_product_at_least(h.z, SCALE as int, 11_900_000_000_000_000, SCALE as int);
        lemma_truncation_keeps_large(h.z * SCALE, n);
    }
}

/// One in the direction of `c`: `SCALE`, `-SCALE` or zero.
pub open spec fn signed_one(c: int) -> int {
    if c > 0 {
        SCALE as int
    } else if c < 0 {
        -SCALE
    } else {
        0
    }
}

/// The length of a vector along an axis is the magnitude of its one component.
proof fn lemma_length_along_axis(a: Int3, c: int)
    requires
        dot(a, a) == c * c,
    ensures
        length(a) == if c < 0 { -c } else { c },
{
    let n = if c < 0 { -c } else { c };
    assert(n * n == c * c && (n + 1) * (n + 1) > n * n) by (nonlinear_arith)
        requires
            n == c || n == -c,
            n >= 0,
    ;
    lemma_floor_sqrt_unique(dot(a, a), n);
}

/// `c * SCALE` divided by the magnitude of `c` is one in the direction of `c`.
proof fn lemma_signed_one(c: int)
    requires
        c != 0,
    ensures
        trunc_div(c * SCALE, if c < 0 { -c } else { c }) == signed_one(c),
        trunc_div(0 * SCALE, if c < 0 { -c } else { c }) == 0,
{
    if c > 0 {
        lemma_div_by_multiple(SCALE as int, c);
        assert(c * SCALE == SCALE * c && c * SCALE >= 0) by (nonlinear_arith)
            requires
                c > 0,
                SCALE > 0,
        ;
    } else {
        lemma_div_by_multiple(SCALE as int, -c);
        assert(-(c * SCALE) == SCALE * (-c) && c * SCALE < 0) by (nonlinear_arith)
            requires
                c < 0,
                SCALE > 0,
        ;
    }
}

/// The unit vector along a vector that lies along an axis lies along the
/// same axis, in the same direction, and is exactly one long.
pub proof fn lemma_unit_along_axis(a: Int3)
    requires
        (a.x == 0 && a.y == 0) || (a.x == 0 && a.z == 0) || (a.y == 0 && a.z == 0),
    ensures
        unit(a) == (Int3 { x: signed_one(a.x), y: signed_one(a.y), z: signed_one(a.z) }),
{
    let c = a.x + a.y + a.z;
    assert(dot(a, a) == c * c) by (nonlinear_arith)
        requires
            dot(a, a) == a.x * a.x + a.y * a.y + a.z * a.z,
            c == a.x + a.y + a.z,
            (a.x == 0 && a.y == 0) || (a.x == 0 && a.z == 0) || (a.y == 0 && a.z == 0),
    ;
    lemma_length_along_axis(a, c);
    if c != 0 {
        lemma_signed_one(c);
    }
}

/// The unit vector along the level up direction is that direction itself.
pub proof fn lemma_unit_of_level_up()
    ensures
        unit(level_up()) == level_up(),
{
    lemma_unit_along_axis(level_up());
}

/// A camera turned a quarter turn back from the X axis, with no pitch, in a
/// world whose up direction is the Y axis, looks down the negative Z axis,
/// with the X axis to its right and the Y axis above it, all three exactly.
pub proof fn lemma_basis_at_rest()
    ensures
        front_of(-QUARTER_TURN, 0) == (Int3 { x: 0, y: 0, z: -SCALE }),
        right_of(front_of(-QUARTER_TURN, 0), level_up()) == (Int3 { x: SCALE as int, y: 0, z: 0 }),
        up_of(right_of(front_of(-QUARTER_TURN, 0), level_up()), front_of(-QUARTER_TURN, 0))
            == level_up(),
{
    lemma_quarter_turns();
    let h = heading(-QUARTER_TURN, 0);
    assert(h.x == 0 && h.y == 0 && h.z == -1_000_000_000_000_000_000) by (nonlinear_arith)
        requires
            h.x == cosine(-QUARTER_TURN) * cosine(0),
            h.y == sine(0) * SCALE,
            h.z == sine(-QUARTER_TURN) * cosine(0),
            cosine(-QUARTER_TURN) == 0,
            sine(0) == 0,
            sine(-QUARTER_TURN) == -1_000_000_000,
            cosine(0) == 1_000_000_000,
    ;
    lemma_unit_along_axis(h);
    let f = front_of(-QUARTER_TURN, 0);
    lemma_unit_of_level_up();
    let c = cross(f, level_up());
    assert(c.x == 1_000_000_000_000_000_000 && c.y == 0 && c.z == 0) by (nonlinear_arith)
        requires
            c.x == 0 * 0 - (-1_000_000_000) * 1_000_000_000,
            c.y == (-1_000_000_000) * 0 - 0 * 0,
            c.z == 0 * 1_000_000_000 - 0 * 0,
    ;
    lemma_unit_along_axis(c);
    let r = right_of(f, level_up());
    let c2 = cross(r, f);
    assert(c2.x == 0 && c2.y == 1_000_000_000_000_000_000 && c2.z == 0) by (nonlinear_arith)
        requires
            c2.x == 0 * (-1_000_000_000) - 0 * 0,
            c2.y == 0 * 0 - 1_000_000_000 * (-1_000_000_000),
            c2.z == 1_000_000_000 * 0 - 0 * 0,
    ;
    lemma_unit_along_axis(c2);
}

/// From a front vector `f` of length one within the unit cube, and a unit
/// up direction `w` that is not parallel to it, `right_of` and `up_of`
/// complete an orthonormal basis: every squared length is within six
/// billionths of one and every dot product within six billionths of zero.
///
/// "Not parallel" is asked for as: the cross product of `f` and `w` is at
/// least `SCALE` long, where that of two unit vectors at right angles is
/// `SCALE * SCALE` long.
pub proof fn lemma_basis_completes(f: Int3, w: Int3)
    requires
        within_unit_cube(f),
        near(dot(f, f), SCALE * SCALE, 6 * SCALE),
        length(cross(f, w)) >= SCALE,
    ensures
        orthonormal_within(
            f,
            unit(cross(f, w)),
            unit(cross(unit(cross(f, w)), f)),
            6 * SCALE,
        ),
        within_unit_cube(unit(cross(f, w))),
        within_unit_cube(unit(cross(unit(cross(f, w)), f))),
{
    let s2: int = SCALE * SCALE;
    let c = cross(f, w);
    let r = unit(c);
    lemma_unit_within_cube(c);
    lemma_unit_length(c);
    lemma_cross_right_angles(f, w);
    lemma_unit_keeps_right_angle(f, c);
    assert(0 <= taxicab(f) <= 3 * SCALE && 0 <= taxicab(r) <= 3 * SCALE);
    let c2 = cross(r, f);
    lemma_cross_length(r, f);
    let rr = dot(r, r);
    let ff = dot(f, f);
    let rf = dot(r, f);
    assert(rf == dot(f, r)) by (nonlinear_arith)
        requires
            rf == r.x * f.x + r.y * f.y + r.z * f.z,
            dot(f, r) == f.x * r.x + f.y * r.y + f.z * r.z,
    ;
    assert(rr * ff - rf * rf >= s2) by (nonlinear_arith)
        requires
            rr >= 999_999_994_000_000_000,
            ff >= 999_999_994_000_000_000,
            -3_000_000_000 <= rf <= 3_000_000_000,
            s2 == 1_000_000_000_000_000_000,
    ;
    lemma_floor_sqrt_at_least(dot(c2, c2), SCALE as int);
    lemma_unit_within_cube(c2);
    lemma_unit_length(c2);
    lemma_cross_right_angles(r, f);
    lemma_unit_keeps_right_angle(r, c2);
    lemma_unit_keeps_right_angle(f, c2);
}

/// The front vector `f` is not parallel to the up direction `w`: the cross
/// product of `f` and the unit vector along `w` is at least one raw unit of
/// `SCALE` long, against the `SCALE * SCALE` of two unit vectors at right
/// angles.
pub open spec fn upright(f: Int3, w: Int3) -> bool {
    length(cross(f, unit(w))) >= SCALE
}

/// In a world whose up direction is the Y axis, the front vector is not
/// parallel to it at any yaw, with the pitch at most eighty-nine degrees
/// either way.
pub proof fn lemma_level_front_upright(yaw: int, pitch: int)
    requires
        -89 * SCALE <= pitch <= 89 * SCALE,
    ensures
        upright(front_of(yaw, pitch), level_up()),
{
    let f = front_of(yaw, pitch);
    let w = level_up();
    lemma_front_off_axis(yaw, pitch);
    lemma_unit_of_level_up();
    let c = cross(f, w);
    assert(c.x == -(f.z * SCALE) && c.y == 0 && c.z == f.x * SCALE) by (nonlinear_arith)
        requires
            c.x == f.y * 0 - f.z * SCALE,
            c.y == f.z * 0 - f.x * 0,
            c.z == f.x * SCALE - f.y * 0,
    ;
    lemma_product_at_least(f.x, SCALE as int, if f.x != 0 { 1 } else { 0 }, SCALE as int);
    lemma_product_at_least(f.z, SCALE as int, if f.z != 0 { 1 } else { 0 }, SCALE as int);
    lemma_square_at_least(c.z, if f.x != 0 { SCALE as int } else { 0 });
    lemma_square_at_least(c.x, if f.z != 0 { SCALE as int } else { 0 });
    assert(dot(c, c) >= SCALE * SCALE) by (nonlinear_arith)
        requires
            dot(c, c) == c.x * c.x + c.y * c.y + c.z * c.z,
            c.y == 0,
            c.x * c.x >= 0,
            c.z * c.z >= 0,
            c.x * c.x >= SCALE * SCALE || c.z * c.z >= SCALE * SCALE,
    ;
    lemma_floor_sqrt_at_least(dot(c, c), SCALE as int);
}

/// At every yaw and pitch at which the front vector is not parallel to the
/// world's up direction, the front, right and up vectors are orthonormal to
/// within six billionths, and so to within one part in a hundred thousand.
pub proof fn lemma_upright_basis_orthonormal(yaw: int, pitch: int, world_up: Int3)
    requires
        upright(front_of(yaw, pitch), world_up),
    ensures
        ({
            let f = front_of(yaw, pitch);
            let r = right_of(f, world_up);
            let u = up_of(r, f);
            &&& orthonormal_within(f, r, u, 6 * SCALE)
            &&& orthonormal_within(f, r, u, hundred_thousandth())
        }),
{
    lemma_front_unit(yaw, pitch);
    lemma_basis_completes(front_of(yaw, pitch), unit(world_up));
}

/// For every yaw, and every pitch at most eighty-nine degrees either way,
/// the front, right and up vectors of a camera in a world whose up
/// direction is the Y axis are orthonormal to within six billionths, and so
/// to within one part in a hundred thousand.
pub proof fn lemma_basis_orthonormal(yaw: int, pitch: int)
    requires
        -89 * SCALE <= pitch <= 89 * SCALE,
    ensures
        ({
            let f = front_of(yaw, pitch);
            let r = right_of(f, level_up());
            let u = up_of(r, f);
            &&& orthonormal_within(f, r, u, 6 * SCALE)
            &&& orthonormal_within(f, r, u, hundred_thousandth())
        }),
{
    lemma_level_front_upright(yaw, pitch);
    lemma_upright_basis_orthonormal(yaw, pitch, level_up());
}

} // verus!
