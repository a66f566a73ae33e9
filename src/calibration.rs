//! Calibration arithmetic: raw counts to physical units, and rounding to
//! whole units.
//!
//! All values are exact fractions of integers, so a reading never carries a
//! sign on zero and rounding is decided by integer arithmetic alone.

use vstd::prelude::*;
use vstd::arithmetic::div_mod::{
    lemma_basic_div, lemma_div_nonincreasing, lemma_fundamental_div_mod, lemma_mod_bound,
};

verus! {

/// Physical units per raw count, as the exact fraction `num / den`.
#[derive(Clone, Copy, Debug, PartialEq, Eq, Structural)]
pub struct ScaleFactor {
    pub num: i32,
    pub den: u32,
}

impl ScaleFactor {
    /// A factor has a positive denominator.
    pub open spec fn wf(&self) -> bool {
        self.den > 0
    }

    pub fn new(num: i32, den: u32) -> (r: ScaleFactor)
        requires
            den > 0,
        ensures
            r.num == num,
            r.den == den,
            r.wf(),
    {
        ScaleFactor { num, den }
    }
}

/// A calibrated reading in physical units: exactly `numer / denom`.
#[derive(Clone, Copy, Debug, PartialEq, Eq, Structural)]
pub struct Calibrated {
    pub numer: i64,
    pub denom: u32,
}

/// The integer nearest to `p / q` (for `q > 0`), halves rounded away from zero.
pub open spec fn round_half_away(p: int, q: int) -> int {
    if p >= 0 {
        (2 * p + q) / (2 * q)
    } else {
        -((q - 2 * p) / (2 * q))
    }
}

/// `v` brought into the range of `i32`.
pub open spec fn saturate_i32(v: int) -> int {
    if v < i32::MIN {
        i32::MIN as int
    } else if v > i32::MAX {
        i32::MAX as int
    } else {
        v
    }
}

/// The rounded reading of the exact value `p / q`.
pub open spec fn rounded_value(p: int, q: int) -> int {
    saturate_i32(round_half_away(p, q))
}

/// The calibrated value of a raw sample, as a numerator over the factor's
/// denominator: `(raw - offset) * num`.
pub open spec fn calibrated_numer(raw: int, offset: int, factor: ScaleFactor) -> int {
    (raw - offset) * factor.num
}

impl Calibrated {
    pub open spec fn wf(&self) -> bool {
        self.denom > 0
    }

    /// Calibrate `raw` against `offset` and `factor`.
    pub fn from_raw(raw: i32, offset: i32, factor: ScaleFactor) -> (r: Calibrated)
        requires
            factor.wf(),
        ensures
            r.wf(),
            r.denom == factor.den,
            r.numer == calibrated_numer(raw as int, offset as int, factor),
    {
        let diff: i64 = raw as i64 - offset as i64;
        assert(-0x1_0000_0000 < diff < 0x1_0000_0000);
        assert(-0x8000_0000_0000_0000 < diff * factor.num < 0x8000_0000_0000_0000)
            by (nonlinear_arith)
            requires
                -0x1_0000_0000 < diff < 0x1_0000_0000,
                -0x8000_0000 <= factor.num < 0x8000_0000,
        ;
        Calibrated { numer: diff * factor.num as i64, denom: factor.den }
    }

    /// The reading rounded to the nearest whole unit, halves away from zero,
    /// saturated to the range of `i32`.
    pub fn rounded(&self) -> (r: i32)
        requires
            self.wf(),
        ensures
            r == rounded_value(self.numer as int, self.denom as int),
    {
        let p = self.numer as i128;
        let q = self.denom as i128;
        let m: i128 = if p >= 0 {
            let n = (2 * p + q) as u128;
            (n / (2 * q as u128)) as i128
        } else {
            let n = (q - 2 * p) as u128;
            -((n / (2 * q as u128)) as i128)
        };
        proof {
            if p >= 0 {
                lemma_div_nonincreasing(2 * p + q, 2 * q);
            } else {
                lemma_div_nonincreasing(q - 2 * p, 2 * q);
            }
        }
        if m < i32::MIN as i128 {
            i32::MIN
        } else if m > i32::MAX as i128 {
            i32::MAX
        } else {
            m as i32
        }
    }
}

/// A value in `(-1/2, 0]` rounds to plain zero: no reading comes out as a
/// negative zero, however close below zero it lies.
pub proof fn lemma_small_negative_rounds_to_zero(p: int, q: int)
    requires
        q > 0,
        -q < 2 * p <= 0,
    ensures
        rounded_value(p, q) == 0,
{
    if p >= 0 {
        lemma_basic_div(q, 2 * q);
    } else {
        lemma_basic_div(q - 2 * p, 2 * q);
    }
}

/// The rounded value lies within half a unit of the exact value.
pub proof fn lemma_rounding_is_nearest(p: int, q: int)
    requires
        q > 0,
    ensures
        -q <= 2 * p - 2 * q * round_half_away(p, q) <= q,
{
    let d = 2 * q;
    let n = if p >= 0 { 2 * p + q } else { q - 2 * p };
    lemma_fundamental_div_mod(n, d);
    lemma_mod_bound(n, d);
    let k = n / d;
    assert(d * k == 2 * q * k) by (nonlinear_arith)
        requires
            d == 2 * q,
    ;
    if p < 0 {
        assert(2 * q * (-k) == -(2 * q * k)) by (nonlinear_arith);
    }
}

} // verus!
