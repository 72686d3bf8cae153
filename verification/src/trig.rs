//! Sine and cosine of angles given in degrees, in fixed point.
//!
//! A table holds the sines of the whole degrees of the first quarter turn.
//! Between two whole degrees the angle-sum identity is applied to the table
//! entry and to the short power series of the remaining fraction of a degree.

use vstd::prelude::*;
use vstd::arithmetic::div_mod::*;
use crate::fixed::{Fixed, SCALE};

verus! {

/// A full turn, in billionths of a degree.
pub const FULL_TURN: i64 = 360_000_000_000;

/// A quarter turn, in billionths of a degree.
pub const QUARTER_TURN: i64 = 90_000_000_000;

/// Radians in one degree, times ten to the eighteenth.
pub const ARC_OF_DEGREE: i64 = 17_453_292_519_943_296;

/// Billionths of the sine of each whole degree from 0 to 90.
pub const SINE_TABLE: [i64; 91] = [
    0, 17452406, 34899497, 52335956, 69756474, 87155743,
    104528463, 121869343, 139173101, 156434465, 173648178, 190808995,
    207911691, 224951054, 241921896, 258819045, 275637356, 292371705,
    309016994, 325568154, 342020143, 358367950, 374606593, 390731128,
    406736643, 422618262, 438371147, 453990500, 469471563, 484809620,
    500000000, 515038075, 529919264, 544639035, 559192903, 573576436,
    587785252, 601815023, 615661475, 629320391, 642787610, 656059029,
    669130606, 681998360, 694658370, 707106781, 719339800, 731353702,
    743144825, 754709580, 766044443, 777145961, 788010754, 798635510,
    809016994, 819152044, 829037573, 838670568, 848048096, 857167301,
    866025404, 874619707, 882947593, 891006524, 898794046, 906307787,
    913545458, 920504853, 927183855, 933580426, 939692621, 945518576,
    951056516, 956304756, 961261696, 965925826, 970295726, 974370065,
    978147601, 981627183, 984807753, 987688341, 990268069, 992546152,
    994521895, 996194698, 997564050, 998629535, 999390827, 999847695,
    1000000000,
];

/// The table entry for `d` whole degrees.
pub open spec fn table_sine(d: int) -> int
    recommends
        0 <= d <= 90,
{
    SINE_TABLE[d] as int
}

/// The arc, in billionths of a radian, of `f` billionths of a degree.
pub open spec fn arc(f: int) -> int {
    f * ARC_OF_DEGREE / 1_000_000_000_000_000_000
}

/// Sine of a fraction of a degree: the arc less a sixth of its cube.
pub open spec fn small_sine(f: int) -> int {
    let t = arc(f);
    t - t * t * t / 6_000_000_000_000_000_000
}

/// Cosine of a fraction of a degree: the series up to the fourth power.
pub open spec fn small_cosine(f: int) -> int {
    let t = arc(f);
    SCALE - t * t / 2_000_000_000 + t * t * t * t / 24_000_000_000_000_000_000_000_000_000
}

/// Sine of an angle `r` within the first quarter turn.
pub open spec fn quarter_sine(r: int) -> int
    recommends
        0 <= r <= QUARTER_TURN,
{
    let d = r / (SCALE as int);
    let f = r % (SCALE as int);
    let blend = (table_sine(d) * small_cosine(f) + table_sine(90 - d) * small_sine(f))
        / (SCALE as int);
    if blend > SCALE {
        SCALE as int
    } else {
        blend
    }
}

/// Sine of the angle in quarter `q` of the turn, `r` beyond the quarter's start.
pub open spec fn sine_in_quarter(q: int, r: int) -> int {
    if q == 0 {
        quarter_sine(r)
    } else if q == 1 {
        quarter_sine(QUARTER_TURN - r)
    } else if q == 2 {
        -quarter_sine(r)
    } else {
        -quarter_sine(QUARTER_TURN - r)
    }
}

/// Sine of an angle of `a` billionths of a degree.
pub open spec fn sine(a: int) -> int {
    let m = a % (FULL_TURN as int);
    sine_in_quarter(m / (QUARTER_TURN as int), m % (QUARTER_TURN as int))
}

/// Cosine of an angle of `a` billionths of a degree: the sine a quarter turn on.
pub open spec fn cosine(a: int) -> int {
    sine(a + QUARTER_TURN)
}

/// Every entry of the table lies between zero and one; the entries from one
/// degree on are at least the sine of one degree, and those from forty-five
/// degrees on are at least the sine of forty-five degrees.
pub proof fn lemma_table_bounds(d: int)
    requires
        0 <= d <= 90,
    ensures
        0 <= table_sine(d) <= SCALE,
        d >= 1 ==> table_sine(d) >= 17_452_406,
        d >= 45 ==> table_sine(d) >= 707_106_781,
{
}

/// Bounds on the powers of an arc of less than one degree.
pub proof fn lemma_arc_powers(t: int)
    requires
        0 <= t <= 17_453_292,
    ensures
        0 <= t * t <= 304_617_401_637_264,
        0 <= t * t * t <= 5_316_576_459_056_446_673_088,
        0 <= t * t * t * t <= 92_791_761_380_238_208_267_833_405_696,
{
    let t2 = t * t;
    let t3 = t2 * t;
    assert(0 <= t2 <= 304_617_401_637_264) by (nonlinear_arith)
        requires
            0 <= t <= 17_453_292,
            t2 == t * t,
    ;
    assert(0 <= t3 <= 5_316_576_459_056_446_673_088) by (nonlinear_arith)
        requires
            0 <= t <= 17_453_292,
            0 <= t2 <= 304_617_401_637_264,
            t3 == t2 * t,
    ;
    assert(0 <= t3 * t <= 92_791_761_380_238_208_267_833_405_696) by (nonlinear_arith)
        requires
            0 <= t <= 17_453_292,
            0 <= t3 <= 5_316_576_459_056_446_673_088,
    ;
}

/// Bounds on the arc and on the two series for a fraction of a degree.
pub proof fn lemma_small_angle_bounds(f: int)
    requires
        0 <= f < SCALE,
    ensures
        0 <= arc(f) <= 17_453_292,
        0 <= small_sine(f) <= 17_453_292,
        999_847_690 <= small_cosine(f) <= 1_000_000_003,
{
    let t = arc(f);
    assert(0 <= f * ARC_OF_DEGREE <= 17_453_292_519_943_296_000_000_000) by (nonlinear_arith)
        requires
            0 <= f < 1_000_000_000,
            ARC_OF_DEGREE == 17_453_292_519_943_296,
    ;
    lemma_arc_powers(t);
    assert(t * t * t <= 6_000_000_000_000_000_000 * t) by (nonlinear_arith)
        requires
            0 <= t <= 17_453_292,
    ;
    lemma_div_is_ordered(t * t * t, 6_000_000_000_000_000_000 * t, 6_000_000_000_000_000_000);
    lemma_div_by_multiple(t, 6_000_000_000_000_000_000);
}

/// The sine within the first quarter turn lies between zero and one, is at
/// least 0.017 from one degree on and at least 0.7 from forty-five degrees on.
pub proof fn lemma_quarter_sine_bounds(r: int)
    requires
        0 <= r <= QUARTER_TURN,
    ensures
        0 <= quarter_sine(r) <= SCALE,
        r >= SCALE ==> quarter_sine(r) >= 17_000_000,
        r >= 45 * SCALE ==> quarter_sine(r) >= 700_000_000,
{
    let d = r / (SCALE as int);
    let f = r % (SCALE as int);
    lemma_table_bounds(d);
    lemma_table_bounds(90 - d);
    lemma_small_angle_bounds(f);
    let a = table_sine(d);
    let b = table_sine(90 - d);
    let c = small_cosine(f);
    let s = small_sine(f);
    assert(0 <= a * c + b * s) by (nonlinear_arith)
        requires
            0 <= a,
            0 <= b,
            0 <= c,
            0 <= s,
    ;
    if r >= SCALE {
        assert(a * c + b * s >= 17_452_406 * 999_847_690) by (nonlinear_arith)
            requires
                17_452_406 <= a,
                0 <= b,
                999_847_690 <= c,
                0 <= s,
        ;
    }
    if r >= 45 * SCALE {
        assert(a * c + b * s >= 707_106_781 * 999_847_690) by (nonlinear_arith)
            requires
                707_106_781 <= a,
                0 <= b,
                999_847_690 <= c,
                0 <= s,
        ;
    }
}

/// Sine of an angle within the first quarter turn.
fn quarter_sine_of(r: i64) -> (v: i64)
    requires
        0 <= r <= QUARTER_TURN,
    ensures
        v == quarter_sine(r as int),
{
    let d: usize = (r / SCALE) as usize;
    let f: i64 = r % SCALE;
    proof {
        lemma_table_bounds(d as int);
        lemma_table_bounds(90 - d);
        lemma_small_angle_bounds(f as int);
        lemma_arc_powers(arc(f as int));
        assert(0 <= f * ARC_OF_DEGREE <= 17_453_292_519_943_296_000_000_000) by (nonlinear_arith)
            requires
                0 <= f < 1_000_000_000,
                ARC_OF_DEGREE == 17_453_292_519_943_296,
        ;
    }
    let t: i128 = (f as i128) * (ARC_OF_DEGREE as i128) / 1_000_000_000_000_000_000;
    let t2: i128 = t * t;
    let small_s: i128 = t - t2 * t / 6_000_000_000_000_000_000;
    let small_c: i128 = SCALE as i128 - t2 / 2_000_000_000 + t2 * t * t
        / 24_000_000_000_000_000_000_000_000_000;
    let a: i128 = SINE_TABLE[d] as i128;
    let b: i128 = SINE_TABLE[90 - d] as i128;
    assert(0 <= a * small_c <= 1_000_000_000 * 1_000_000_003 && 0 <= b * small_s
        <= 1_000_000_000 * 17_453_292) by (nonlinear_arith)
        requires
            0 <= a <= 1_000_000_000,
            0 <= b <= 1_000_000_000,
            0 <= small_c <= 1_000_000_003,
            0 <= small_s <= 17_453_292,
    ;
    let blend: i128 = (a * small_c + b * small_s) / (SCALE as i128);
    if blend > SCALE as i128 {
        SCALE
    } else {
        blend as i64
    }
}

/// Cosine of the angle in quarter `q` of the turn, `r` beyond the quarter's start.
pub open spec fn cosine_in_quarter(q: int, r: int) -> int {
    if q == 0 {
        quarter_sine(QUARTER_TURN - r)
    } else if q == 1 {
        -quarter_sine(r)
    } else if q == 2 {
        -quarter_sine(QUARTER_TURN - r)
    } else {
        quarter_sine(r)
    }
}

/// The cosine, read off the quarter in which the angle itself lies.
pub proof fn lemma_cosine_by_quarter(a: int)
    ensures
        cosine(a) == cosine_in_quarter(
            (a % (FULL_TURN as int)) / (QUARTER_TURN as int),
            (a % (FULL_TURN as int)) % (QUARTER_TURN as int),
        ),
{
    let m = a % (FULL_TURN as int);
    let q = m / (QUARTER_TURN as int);
    let r = m % (QUARTER_TURN as int);
    let k = a / (FULL_TURN as int);
    lemma_fundamental_div_mod(a, FULL_TURN as int);
    if q < 3 {
        lemma_fundamental_div_mod_converse(
            a + QUARTER_TURN,
            FULL_TURN as int,
            k,
            m + QUARTER_TURN,
        );
    } else {
        lemma_fundamental_div_mod_converse(
            a + QUARTER_TURN,
            FULL_TURN as int,
            k + 1,
            m + QUARTER_TURN - FULL_TURN,
        );
    }
}

/// Sine and cosine never leave the range from minus one to one.
pub proof fn lemma_sine_cosine_bounds(a: int)
    ensures
        -SCALE <= sine(a) <= SCALE,
        -SCALE <= cosine(a) <= SCALE,
{
    let m = a % (FULL_TURN as int);
    let r = m % (QUARTER_TURN as int);
    lemma_cosine_by_quarter(a);
    lemma_quarter_sine_bounds(r);
    lemma_quarter_sine_bounds(QUARTER_TURN - r);
}

/// At every angle the sine or the cosine is at least 0.7 in magnitude.
pub proof fn lemma_sine_or_cosine_large(a: int)
    ensures
        sine(a) >= 700_000_000 || sine(a) <= -700_000_000 || cosine(a) >= 700_000_000
            || cosine(a) <= -700_000_000,
{
    let m = a % (FULL_TURN as int);
    let r = m % (QUARTER_TURN as int);
    lemma_cosine_by_quarter(a);
    lemma_quarter_sine_bounds(r);
    lemma_quarter_sine_bounds(QUARTER_TURN - r);
}

/// Up to eighty-nine degrees either side of zero the cosine is at least 0.017.
pub proof fn lemma_cosine_clear_of_zero(a: int)
    requires
        -89 * SCALE <= a <= 89 * SCALE,
    ensures
        cosine(a) >= 17_000_000,
{
    let m = a % (FULL_TURN as int);
    let r = m % (QUARTER_TURN as int);
    lemma_cosine_by_quarter(a);
    if a >= 0 {
        lemma_fundamental_div_mod_converse(a, FULL_TURN as int, 0, a);
    } else {
        lemma_fundamental_div_mod_converse(a, FULL_TURN as int, -1, a + FULL_TURN);
    }
    lemma_quarter_sine_bounds(r);
    lemma_quarter_sine_bounds(QUARTER_TURN - r);
}

/// At the start and at the end of the first quarter turn the sine is
/// exactly zero and exactly one.
pub proof fn lemma_quarter_sine_ends()
    ensures
        quarter_sine(0) == 0,
        quarter_sine(QUARTER_TURN as int) == SCALE,
{
    assert(arc(0) == 0);
    assert(small_sine(0) == 0);
    assert(small_cosine(0) == SCALE);
    assert(table_sine(0) == 0 && table_sine(90) == SCALE);
    assert(table_sine(90) * small_cosine(0) + table_sine(0) * small_sine(0)
        == 1_000_000_000_000_000_000) by (nonlinear_arith)
        requires
            table_sine(90) == 1_000_000_000,
            small_cosine(0) == 1_000_000_000,
            table_sine(0) == 0,
            small_sine(0) == 0,
    ;
    assert(table_sine(0) * small_cosine(0) + table_sine(90) * small_sine(0) == 0)
        by (nonlinear_arith)
        requires
            table_sine(0) == 0,
            small_sine(0) == 0,
    ;
}

/// At a quarter turn back, at zero and at a quarter turn on, sine and
/// cosine are exactly zero, one or minus one.
pub proof fn lemma_quarter_turns()
    ensures
        sine(-QUARTER_TURN) == -SCALE,
        cosine(-QUARTER_TURN) == 0,
        sine(0) == 0,
        cosine(0) == SCALE,
        sine(QUARTER_TURN as int) == SCALE,
        cosine(QUARTER_TURN as int) == 0,
{
    lemma_quarter_sine_ends();
    lemma_cosine_by_quarter(-QUARTER_TURN);
    lemma_cosine_by_quarter(0);
    lemma_cosine_by_quarter(QUARTER_TURN as int);
}

/// Turning once more round changes neither sine nor cosine.
pub proof fn lemma_full_turn(a: int)
    ensures
        sine(a + FULL_TURN) == sine(a),
        cosine(a + FULL_TURN) == cosine(a),
{
    lemma_mod_add_multiples_vanish(a, FULL_TURN as int);
    lemma_mod_add_multiples_vanish(a + QUARTER_TURN, FULL_TURN as int);
}

/// The angle brought into the first full turn.
fn turn_remainder(a: i64) -> (m: i64)
    ensures
        m == (a as int) % (FULL_TURN as int),
        0 <= m < FULL_TURN,
{
    let r: i64 = a % FULL_TURN;
    if r < 0 {
        proof {
            let k = (-(a as int)) / (FULL_TURN as int);
            lemma_fundamental_div_mod(-(a as int), FULL_TURN as int);
            lemma_fundamental_div_mod_converse(
                a as int,
                FULL_TURN as int,
                -k - 1,
                r + FULL_TURN,
            );
        }
        r + FULL_TURN
    } else {
        proof {
            if a < 0 {
                let k = (-(a as int)) / (FULL_TURN as int);
                lemma_fundamental_div_mod(-(a as int), FULL_TURN as int);
                lemma_fundamental_div_mod_converse(a as int, FULL_TURN as int, -k, 0);
            }
        }
        r
    }
}

/// Sine of an angle in degrees.
pub fn sin(angle: Fixed) -> (r: Fixed)
    ensures
        r.raw == sine(angle.raw as int),
        -SCALE <= r.raw <= SCALE,
{
    let m: i64 = turn_remainder(angle.raw);
    let q: i64 = m / QUARTER_TURN;
    let rest: i64 = m % QUARTER_TURN;
    proof {
        lemma_sine_cosine_bounds(angle.raw as int);
        lemma_quarter_sine_bounds(rest as int);
        lemma_quarter_sine_bounds(QUARTER_TURN - rest);
    }
    let raw: i64 = if q == 0 {
        quarter_sine_of(rest)
    } else if q == 1 {
        quarter_sine_of(QUARTER_TURN - rest)
    } else if q == 2 {
        -quarter_sine_of(rest)
    } else {
        -quarter_sine_of(QUARTER_TURN - rest)
    };
    Fixed { raw }
}

/// Cosine of an angle in degrees.
pub fn cos(angle: Fixed) -> (r: Fixed)
    ensures
        r.raw == cosine(angle.raw as int),
        -SCALE <= r.raw <= SCALE,
{
    let m: i64 = turn_remainder(angle.raw);
    let q: i64 = m / QUARTER_TURN;
    let rest: i64 = m % QUARTER_TURN;
    proof {
        lemma_cosine_by_quarter(angle.raw as int);
        lemma_sine_cosine_bounds(angle.raw as int);
        lemma_quarter_sine_bounds(rest as int);
        lemma_quarter_sine_bounds(QUARTER_TURN - rest);
    }
    let raw: i64 = if q == 0 {
        quarter_sine_of(QUARTER_TURN - rest)
    } else if q == 1 {
        -quarter_sine_of(rest)
    } else if q == 2 {
        -quarter_sine_of(QUARTER_TURN - rest)
    } else {
        quarter_sine_of(rest)
    };
    Fixed { raw }
}

} // verus!
