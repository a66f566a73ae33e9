//! The zero reference: the mean of a run of raw samples.

use vstd::prelude::*;
use vstd::arithmetic::div_mod::{lemma_div_by_multiple, lemma_div_is_ordered};

verus! {

/// The sum of the samples.
pub open spec fn sum_of(s: Seq<i32>) -> int
    decreases s.len(),
{
    if s.len() == 0 {
        0
    } else {
        sum_of(s.drop_last()) + s.last()
    }
}

/// `a / b` (for `b > 0`) truncated toward zero.
pub open spec fn div_toward_zero(a: int, b: int) -> int {
    if a >= 0 {
        a / b
    } else {
        -((-a) / b)
    }
}

/// The mean of the samples, truncated toward zero.
pub open spec fn mean_toward_zero(s: Seq<i32>) -> int {
    div_toward_zero(sum_of(s), s.len() as int)
}

proof fn lemma_sum_bounds(s: Seq<i32>)
    ensures
        i32::MIN * s.len() <= sum_of(s) <= i32::MAX * s.len(),
    decreases s.len(),
{
    if s.len() > 0 {
        lemma_sum_bounds(s.drop_last());
    }
}

/// The mean of the samples, truncated toward zero.
pub fn mean_of(samples: &[i32]) -> (r: i32)
    requires
        samples@.len() >= 1,
    ensures
        r == mean_toward_zero(samples@),
{
    let n = samples.len();
    let mut acc: i128 = 0;
    let mut i: usize = 0;
    while i < n
        invariant
            n == samples@.len(),
            0 <= i <= n,
            acc == sum_of(samples@.take(i as int)),
        decreases n - i,
    {
        proof {
            lemma_sum_bounds(samples@.take(i as int));
            assert(samples@.take(i + 1).drop_last() =~= samples@.take(i as int));
            assert(i32::MIN * i >= -0x8000_0000 * 0x1_0000_0000_0000_0000) by (nonlinear_arith)
                requires
                    0 <= i < 0x1_0000_0000_0000_0000,
            ;
            assert(i32::MAX * i <= 0x8000_0000 * 0x1_0000_0000_0000_0000) by (nonlinear_arith)
                requires
                    0 <= i < 0x1_0000_0000_0000_0000,
            ;
        }
        acc = acc + samples[i] as i128;
        i = i + 1;
    }
    proof {
        assert(samples@.take(n as int) =~= samples@);
        lemma_sum_bounds(samples@);
        lemma_div_by_multiple(i32::MAX as int, n as int);
        lemma_div_by_multiple(0x8000_0000, n as int);
        assert(i32::MAX * n == n * i32::MAX);
        assert(0x8000_0000 * n == n * 0x8000_0000);
        if acc >= 0 {
            lemma_div_is_ordered(acc as int, i32::MAX * n, n as int);
        } else {
            lemma_div_is_ordered(-acc, 0x8000_0000 * n, n as int);
        }
    }
    let m: i128 = if acc >= 0 {
        (acc as u128 / n as u128) as i128
    } else {
        -(((-acc) as u128 / n as u128) as i128)
    };
    m as i32
}

} // verus!
