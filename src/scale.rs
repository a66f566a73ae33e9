//! The scale engine: calibration state over a raw sample channel.
//!
//! The channel is held as the sample it has made available and that has not
//! been consumed yet. Whoever drives the hardware hands each fresh sample in
//! with `deliver`; the engine consumes it with one of its reads.

use vstd::prelude::*;

use crate::calibration::{calibrated_numer, rounded_value, Calibrated, ScaleFactor};
use crate::stability::{recent, settles_after, within, StabilityWindow, Tolerance};
use crate::taring::{mean_of, mean_toward_zero};

verus! {

/// A read was attempted while the channel had no fresh sample.
#[derive(Clone, Copy, Debug, PartialEq, Eq, Structural)]
pub struct NotReadyError;

/// The state of a scale: the zero reference, the conversion factor and the
/// channel's unread sample, if any.
#[derive(Clone, Copy, Debug, PartialEq, Eq, Structural)]
pub struct ScaleView {
    pub offset: i32,
    pub factor: ScaleFactor,
    pub pending: Option<i32>,
}

/// A load cell with its calibration.
pub struct Scale {
    offset: i32,
    scaling: ScaleFactor,
    pending: Option<i32>,
}

/// The calibrated numerators of a run of raw samples.
pub open spec fn calibrated_feed(samples: Seq<i32>, offset: int, factor: ScaleFactor) -> Seq<i64> {
    samples.map_values(|raw: i32| calibrated_numer(raw as int, offset, factor) as i64)
}

impl View for Scale {
    type V = ScaleView;

    closed spec fn view(&self) -> ScaleView {
        ScaleView { offset: self.offset, factor: self.scaling, pending: self.pending }
    }
}

impl Scale {
    pub open spec fn wf(&self) -> bool {
        self@.factor.wf()
    }

    /// The rounded reading that a raw sample gives under the current calibration.
    pub open spec fn rounded_of(&self, raw: i32) -> int {
        rounded_value(
            calibrated_numer(raw as int, self@.offset as int, self@.factor),
            self@.factor.den as int,
        )
    }

    /// A scale with zero offset and the given factor, with no sample waiting.
    pub fn new(scaling: ScaleFactor) -> (r: Scale)
        requires
            scaling.wf(),
        ensures
            r.wf(),
            r@ == (ScaleView { offset: 0, factor: scaling, pending: None }),
    {
        Scale { offset: 0, scaling, pending: None }
    }

    /// Whether a fresh sample is waiting to be read.
    pub fn is_ready(&self) -> (r: bool)
        ensures
            r == self@.pending.is_some(),
    {
        self.pending.is_some()
    }

    /// The channel has produced a fresh sample; it replaces any unread one.
    pub fn deliver(&mut self, raw: i32)
        ensures
            final(self)@ == (ScaleView { pending: Some(raw), ..old(self)@ }),
    {
        self.pending = Some(raw);
    }

    /// Consume the waiting raw sample, or fail without change when there is none.
    pub fn read_raw(&mut self) -> (r: Result<i32, NotReadyError>)
        ensures
            match old(self)@.pending {
                Some(raw) => {
                    &&& r == Ok::<i32, NotReadyError>(raw)
                    &&& final(self)@ == (ScaleView { pending: None, ..old(self)@ })
                },
                None => {
                    &&& r == Err::<i32, NotReadyError>(NotReadyError)
                    &&& final(self)@ == old(self)@
                },
            },
    {
        match self.pending.take() {
            Some(raw) => Ok(raw),
            None => Err(NotReadyError),
        }
    }

    /// Consume the waiting sample and return it calibrated:
    /// `(raw - offset) * factor`, exactly.
    pub fn read_scaled(&mut self) -> (r: Result<Calibrated, NotReadyError>)
        requires
            old(self).wf(),
        ensures
            final(self).wf(),
            match old(self)@.pending {
                Some(raw) => {
                    &&& r.is_ok()
                    &&& r->Ok_0.denom == old(self)@.factor.den
                    &&& r->Ok_0.numer == calibrated_numer(raw as int, old(self)@.offset as int, old(self)@.factor)
                    &&& final(self)@ == (ScaleView { pending: None, ..old(self)@ })
                },
                None => {
                    &&& r == Err::<Calibrated, NotReadyError>(NotReadyError)
                    &&& final(self)@ == old(self)@
                },
            },
    {
        let raw = self.read_raw()?;
        Ok(Calibrated::from_raw(raw, self.offset, self.scaling))
    }

    /// Consume the waiting sample and return it calibrated and rounded to the
    /// nearest whole unit (halves away from zero, saturated to `i32`).
    pub fn read_rounded(&mut self) -> (r: Result<i32, NotReadyError>)
        requires
            old(self).wf(),
        ensures
            final(self).wf(),
            match old(self)@.pending {
                Some(raw) => {
                    &&& r.is_ok()
                    &&& r->Ok_0 == old(self).rounded_of(raw)
                    &&& final(self)@ == (ScaleView { pending: None, ..old(self)@ })
                },
                None => {
                    &&& r == Err::<i32, NotReadyError>(NotReadyError)
                    &&& final(self)@ == old(self)@
                },
            },
    {
        let reading = self.read_scaled()?;
        Ok(reading.rounded())
    }

    /// Set the zero reference to the mean of `samples` (truncated toward
    /// zero), leaving the factor and the channel as they are.
    pub fn tare(&mut self, samples: &[i32])
        requires
            samples@.len() >= 1,
        ensures
            final(self)@.offset == mean_toward_zero(samples@),
            final(self)@.factor == old(self)@.factor,
            final(self)@.pending == old(self)@.pending,
    {
        self.offset = mean_of(samples);
    }

    /// The zero reference.
    pub fn offset(&self) -> (r: i32)
        ensures
            r == self@.offset,
    {
        self.offset
    }

    /// The conversion factor.
    pub fn scaling(&self) -> (r: ScaleFactor)
        ensures
            r == self@.factor,
    {
        self.scaling
    }

    /// An empty settle-detection window for this scale's readings.
    pub fn stability_window(&self, capacity: usize, tolerance: Tolerance) -> (r: StabilityWindow)
        requires
            self.wf(),
            capacity >= 1,
            tolerance.wf(),
        ensures
            r.wf(),
            r@ == Seq::<i64>::empty(),
            r.capacity() == capacity,
            r.tolerance() == tolerance,
            r.unit() == self@.factor.den,
    {
        StabilityWindow::new(capacity, tolerance, self.scaling.den)
    }

    /// Run settle detection over a run of raw samples, read in order: the
    /// number of samples consumed when the window first settles, or `None`
    /// when it has not settled by the end of the run.
    pub fn wait_stable(&self, samples: &[i32], capacity: usize, tolerance: Tolerance) -> (r: Option<usize>)
        requires
            self.wf(),
            capacity >= 1,
            tolerance.wf(),
        ensures
            ({
                let feed = calibrated_feed(samples@, self@.offset as int, self@.factor);
                let unit = self@.factor.den as int;
                match r {
                    Some(k) => {
                        &&& capacity <= k <= samples@.len()
                        &&& settles_after(feed, k as int, capacity as nat, unit, tolerance)
                        &&& forall|j: int| 0 <= j < k ==> !settles_after(feed, j, capacity as nat, unit, tolerance)
                    },
                    None => forall|j: int|
                        0 <= j <= samples@.len() ==> !settles_after(feed, j, capacity as nat, unit, tolerance),
                }
            }),
    {
        let ghost feed = calibrated_feed(samples@, self@.offset as int, self@.factor);
        let ghost unit = self@.factor.den as int;
        let mut window = self.stability_window(capacity, tolerance);
        let n = samples.len();
        let mut i: usize = 0;
        while i < n
            invariant
                self.wf(),
                n == samples@.len(),
                0 <= i <= n,
                feed == calibrated_feed(samples@, self@.offset as int, self@.factor),
                unit == self@.factor.den as int,
                window.wf(),
                capacity >= 1,
                window.capacity() == capacity,
                window.tolerance() == tolerance,
                window.unit() == unit,
                window@ == recent(feed.take(i as int), capacity as nat),
                forall|j: int| 0 <= j <= i ==> !settles_after(feed, j, capacity as nat, unit, tolerance),
            decreases n - i,
        {
            let reading = Calibrated::from_raw(samples[i], self.offset, self.scaling);
            let ghost before = window@;
            let settled = window.push(reading);
            proof {
                assert(feed.take(i + 1) =~= feed.take(i as int).push(reading.numer));
                crate::stability::lemma_recent_push(feed.take(i as int), reading.numer, capacity as nat);
            }
            i = i + 1;
            if settled {
                return Some(i);
            }
        }
        None
    }
}

/// A run that opens with `cap` identical raw samples settles after exactly
/// `cap` of them, whatever follows, as long as the tolerance is positive.
pub proof fn lemma_identical_run_settles(
    samples: Seq<i32>,
    offset: i32,
    factor: ScaleFactor,
    cap: nat,
    tolerance: Tolerance,
)
    requires
        factor.wf(),
        tolerance.wf(),
        tolerance.num > 0,
        cap >= 1,
        samples.len() >= cap,
        forall|i: int| 0 <= i < cap ==> #[trigger] samples[i] == samples[0],
    ensures
        settles_after(calibrated_feed(samples, offset as int, factor), cap as int, cap, factor.den as int, tolerance),
        forall|j: int|
            0 <= j < cap ==> !settles_after(
                calibrated_feed(samples, offset as int, factor),
                j,
                cap,
                factor.den as int,
                tolerance,
            ),
{
    let feed = calibrated_feed(samples, offset as int, factor);
    let w = recent(feed.take(cap as int), cap);
    assert(w =~= feed.take(cap as int));
    assert(tolerance.num * factor.den > 0) by (nonlinear_arith)
        requires
            tolerance.num > 0,
            factor.den > 0,
    ;
    assert forall|i: int| 0 <= i < w.len() implies within(
        #[trigger] w[i] as int,
        w.last() as int,
        factor.den as int,
        tolerance,
    ) by {
        assert(samples[i] == samples[cap - 1]);
        assert(w[i] == feed[i]);
        assert(w.last() == feed[cap - 1]);
        assert(feed[i] == feed[cap - 1]);
    }
    assert forall|j: int| 0 <= j < cap implies !settles_after(feed, j, cap, factor.den as int, tolerance) by {
        assert(recent(feed.take(j), cap) =~= feed.take(j));
    }
}

} // verus!
