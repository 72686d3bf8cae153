//! Signed fixed-point numbers with nine decimal places.

use vstd::prelude::*;

verus! {

/// Raw units per whole: a `Fixed` with `raw == SCALE` stands for one.
pub const SCALE: i64 = 1_000_000_000;

/// A fixed-point number: `raw` counts billionths.
#[derive(Clone, Copy, Debug, PartialEq, Eq, Structural)]
pub struct Fixed {
    pub raw: i64,
}

/// The nearest value to `x` that an `i64` can hold.
pub open spec fn saturate(x: int) -> int {
    if x < i64::MIN {
        i64::MIN as int
    } else if x > i64::MAX {
        i64::MAX as int
    } else {
        x
    }
}

/// The quotient `n / d` rounded towards zero, for a positive divisor.
pub open spec fn trunc_div(n: int, d: int) -> int
    recommends
        d > 0,
{
    if n >= 0 {
        n / d
    } else {
        -((-n) / d)
    }
}

/// The raw value of the product of two fixed-point numbers, before saturation.
pub open spec fn scaled_product(a: int, b: int) -> int {
    trunc_div(a * b, SCALE as int)
}

/// `lo` if `x` lies below it, `hi` if `x` lies above it, otherwise `x`.
pub open spec fn clamp_between(x: int, lo: int, hi: int) -> int {
    if x < lo {
        lo
    } else if x > hi {
        hi
    } else {
        x
    }
}

/// The product of two 64-bit values always fits in 128 bits.
pub proof fn lemma_product_fits(a: int, b: int)
    by (nonlinear_arith)
    requires
        i64::MIN <= a <= i64::MAX,
        i64::MIN <= b <= i64::MAX,
    ensures
        -0x4000_0000_0000_0000_0000_0000_0000_0000 <= a * b
            <= 0x4000_0000_0000_0000_0000_0000_0000_0000,
{
}

/// Narrows a 128-bit value to 64 bits, saturating at the ends of the range.
pub fn narrow(x: i128) -> (r: i64)
    ensures
        r == saturate(x as int),
{
    if x < i64::MIN as i128 {
        i64::MIN
    } else if x > i64::MAX as i128 {
        i64::MAX
    } else {
        x as i64
    }
}

impl Fixed {
    /// The number with the given count of billionths.
    pub fn from_raw(raw: i64) -> (r: Fixed)
        ensures
            r.raw == raw,
    {
        Fixed { raw }
    }

    /// The whole number `n`.
    pub fn from_int(n: i32) -> (r: Fixed)
        ensures
            r.raw == n * SCALE,
    {
        Fixed { raw: (n as i64) * SCALE }
    }

    /// Sum, saturating at the ends of the representable range.
    pub fn saturating_add(self, rhs: Fixed) -> (r: Fixed)
        ensures
            r.raw == saturate(self.raw + rhs.raw),
    {
        Fixed { raw: narrow(self.raw as i128 + rhs.raw as i128) }
    }

    /// Difference, saturating at the ends of the representable range.
    pub fn saturating_sub(self, rhs: Fixed) -> (r: Fixed)
        ensures
            r.raw == saturate(self.raw - rhs.raw),
    {
        Fixed { raw: narrow(self.raw as i128 - rhs.raw as i128) }
    }

    /// Product, rounded towards zero to a whole number of billionths and
    /// saturating at the ends of the representable range.
    pub fn saturating_mul(self, rhs: Fixed) -> (r: Fixed)
        ensures
            r.raw == saturate(scaled_product(self.raw as int, rhs.raw as int)),
    {
        proof {
            lemma_product_fits(self.raw as int, rhs.raw as int);
        }
        let wide: i128 = (self.raw as i128) * (rhs.raw as i128);
        Fixed { raw: narrow(wide / (SCALE as i128)) }
    }

    /// The value limited to the interval from `lo` to `hi`.
    pub fn clamp(self, lo: Fixed, hi: Fixed) -> (r: Fixed)
        requires
            lo.raw <= hi.raw,
        ensures
            r.raw == clamp_between(self.raw as int, lo.raw as int, hi.raw as int),
    {
        if self.raw < lo.raw {
            lo
        } else if self.raw > hi.raw {
            hi
        } else {
            self
        }
    }
}

} // verus!
