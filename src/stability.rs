//! Settle detection: a ring buffer of the most recent calibrated readings,
//! settled once it is full and every reading in it lies strictly within a
//! tolerance of the newest one.

use std::collections::VecDeque;
use vstd::prelude::*;

use crate::calibration::Calibrated;

verus! {

/// The window size used when nothing else is asked for.
pub const SETTLE_WINDOW: usize = 10;

/// An absolute tolerance in physical units, as the exact fraction `num / den`.
#[derive(Clone, Copy, Debug, PartialEq, Eq, Structural)]
pub struct Tolerance {
    pub num: u32,
    pub den: u32,
}

impl Tolerance {
    pub open spec fn wf(&self) -> bool {
        self.den > 0
    }

    pub fn new(num: u32, den: u32) -> (r: Tolerance)
        requires
            den > 0,
        ensures
            r.num == num,
            r.den == den,
            r.wf(),
    {
        Tolerance { num, den }
    }

    /// The tolerance used when nothing else is asked for: a fifth of a unit.
    pub fn settle_default() -> (r: Tolerance)
        ensures
            r.num == 1,
            r.den == 5,
            r.wf(),
    {
        Tolerance { num: 1, den: 5 }
    }
}

/// `|a - b|`.
pub open spec fn distance(a: int, b: int) -> int {
    if a >= b {
        a - b
    } else {
        b - a
    }
}

/// `a / unit` and `b / unit` differ by strictly less than the tolerance.
pub open spec fn within(a: int, b: int, unit: int, tol: Tolerance) -> bool {
    distance(a, b) * tol.den < tol.num * unit
}

/// The last `n` items of `s`, or all of them when there are fewer.
pub open spec fn recent(s: Seq<i64>, n: nat) -> Seq<i64> {
    if s.len() <= n {
        s
    } else {
        s.subrange(s.len() - n, s.len() as int)
    }
}

/// A window of `cap` readings (numerators over `unit`) is settled when it is
/// full and each reading is within the tolerance of the newest.
pub open spec fn window_settled(w: Seq<i64>, cap: nat, unit: int, tol: Tolerance) -> bool {
    &&& w.len() == cap
    &&& cap > 0
    &&& forall|i: int| 0 <= i < w.len() ==> within(#[trigger] w[i] as int, w.last() as int, unit, tol)
}

/// Two readings exactly one tolerance apart are not within it: the bound is
/// strict.
pub proof fn lemma_tolerance_is_strict(a: int, b: int, unit: int, tol: Tolerance)
    requires
        distance(a, b) * tol.den == tol.num * unit,
    ensures
        !within(a, b, unit, tol),
{
}

/// After the first `k` readings of `feed` have gone through a window of size
/// `cap`, the window is settled.
pub open spec fn settles_after(feed: Seq<i64>, k: int, cap: nat, unit: int, tol: Tolerance) -> bool {
    window_settled(recent(feed.take(k), cap), cap, unit, tol)
}

pub(crate) proof fn lemma_recent_push(s: Seq<i64>, x: i64, n: nat)
    requires
        n > 0,
    ensures
        recent(recent(s, n).push(x), n) =~= recent(s.push(x), n),
{
}

/// The most recent calibrated readings, oldest first, evicting the oldest
/// once `capacity` readings are held.
pub struct StabilityWindow {
    capacity: usize,
    tolerance: Tolerance,
    unit: u32,
    readings: VecDeque<i64>,
}

impl View for StabilityWindow {
    type V = Seq<i64>;

    /// The numerators of the held readings, oldest first.
    closed spec fn view(&self) -> Seq<i64> {
        self.readings@
    }
}

impl StabilityWindow {
    pub closed spec fn capacity(&self) -> nat {
        self.capacity as nat
    }

    pub closed spec fn tolerance(&self) -> Tolerance {
        self.tolerance
    }

    /// The denominator shared by all readings of the window.
    pub closed spec fn unit(&self) -> nat {
        self.unit as nat
    }

    pub closed spec fn wf(&self) -> bool {
        &&& self.capacity >= 1
        &&& self.tolerance.wf()
        &&& self.unit > 0
        &&& self.readings@.len() <= self.capacity
    }

    /// An empty window for readings over the denominator `unit`.
    pub fn new(capacity: usize, tolerance: Tolerance, unit: u32) -> (r: StabilityWindow)
        requires
            capacity >= 1,
            tolerance.wf(),
            unit > 0,
        ensures
            r.wf(),
            r@ == Seq::<i64>::empty(),
            r.capacity() == capacity,
            r.tolerance() == tolerance,
            r.unit() == unit,
    {
        StabilityWindow { capacity, tolerance, unit, readings: VecDeque::new() }
    }

    /// Whether the window is settled.
    pub fn is_settled(&self) -> (r: bool)
        requires
            self.wf(),
        ensures
            r == window_settled(self@, self.capacity(), self.unit() as int, self.tolerance()),
    {
        let n = self.readings.len();
        if n != self.capacity {
            return false;
        }
        let newest = self.readings[n - 1] as i128;
        assert(self.tolerance.num * self.unit < 0x1_0000_0000_0000_0000i128) by (nonlinear_arith)
            requires
                self.tolerance.num < 0x1_0000_0000i128,
                self.unit < 0x1_0000_0000i128,
        ;
        let bound = self.tolerance.num as i128 * self.unit as i128;
        let mut i: usize = 0;
        while i < n
            invariant
                self.wf(),
                n == self.readings@.len(),
                n == self.capacity,
                0 <= i <= n,
                newest == self@.last(),
                bound == self.tolerance.num * self.unit,
                forall|j: int|
                    0 <= j < i ==> within(
                        #[trigger] self@[j] as int,
                        self@.last() as int,
                        self.unit as int,
                        self.tolerance,
                    ),
            decreases n - i,
        {
            let x = self.readings[i] as i128;
            let d: i128 = if x >= newest { x - newest } else { newest - x };
            assert(d * self.tolerance.den < 0x1_0000_0000_0000_0000_0000_0000_0000i128) by (nonlinear_arith)
                requires
                    0 <= d < 0x1_0000_0000_0000_0000i128,
                    self.tolerance.den < 0x1_0000_0000i128,
            ;
            if d * self.tolerance.den as i128 >= bound {
                return false;
            }
            i = i + 1;
        }
        true
    }

    /// Take in a reading, evicting the oldest one once the window is full;
    /// returns whether the window is then settled.
    pub fn push(&mut self, reading: Calibrated) -> (settled: bool)
        requires
            old(self).wf(),
            reading.denom == old(self).unit(),
        ensures
            final(self).wf(),
            final(self)@ == recent(old(self)@.push(reading.numer), old(self).capacity()),
            final(self).capacity() == old(self).capacity(),
            final(self).tolerance() == old(self).tolerance(),
            final(self).unit() == old(self).unit(),
            settled == window_settled(
                final(self)@,
                final(self).capacity(),
                final(self).unit() as int,
                final(self).tolerance(),
            ),
    {
        self.readings.push_back(reading.numer);
        if self.readings.len() > self.capacity {
            self.readings.pop_front();
        }
        proof {
            let s = old(self)@.push(reading.numer);
            if s.len() > old(self).capacity() {
                assert(self@ =~= recent(s, old(self).capacity()));
            }
        }
        self.is_settled()
    }
}

} // verus!
