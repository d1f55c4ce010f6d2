//! Running counters of the work a session has done: how many chunks were
//! processed, and how long that took in total.
//!
//! Both counters are 64 bits wide and wrap around on overflow.

use vstd::prelude::*;

verus! {

/// The value of a 64-bit counter that held `count` after `amount` is added to
/// it: the sum, reduced modulo 2^64.
pub open spec fn wrapped_sum(count: u64, amount: u64) -> u64 {
    if count + amount > u64::MAX {
        (count + amount - u64::MAX - 1) as u64
    } else {
        (count + amount) as u64
    }
}

/// A reading of both counters.
#[derive(Clone, Copy, Debug, PartialEq, Eq, Structural)]
pub struct Metrics {
    /// The number of chunks processed.
    pub total_frames: u64,
    /// The time spent processing them, in microseconds.
    pub processing_time_us: u64,
}

impl Metrics {
    /// The reading that follows `self` once one more chunk, processed in
    /// `elapsed_us` microseconds, has been recorded.
    pub open spec fn recorded(self, elapsed_us: u64) -> Metrics {
        Metrics {
            total_frames: wrapped_sum(self.total_frames, 1),
            processing_time_us: wrapped_sum(self.processing_time_us, elapsed_us),
        }
    }

    /// The reading that follows `self` once one chunk has been recorded for
    /// every entry of `elapsed_us`, in order.
    pub open spec fn recorded_all(self, elapsed_us: Seq<u64>) -> Metrics
        decreases elapsed_us.len(),
    {
        if elapsed_us.len() == 0 {
            self
        } else {
            self.recorded_all(elapsed_us.drop_last()).recorded(elapsed_us.last())
        }
    }

    /// The reading of a fresh or freshly reset accumulator.
    pub open spec fn zero() -> Metrics {
        Metrics { total_frames: 0, processing_time_us: 0 }
    }
}

/// The sum of the entries of `amounts`.
pub open spec fn total(amounts: Seq<u64>) -> int
    decreases amounts.len(),
{
    if amounts.len() == 0 {
        0
    } else {
        total(amounts.drop_last()) + amounts.last()
    }
}

/// The two counters of a session.
#[derive(Debug)]
pub struct MetricsAccumulator {
    total_frames: u64,
    processing_time_us: u64,
}

impl MetricsAccumulator {
    /// The current reading.
    pub closed spec fn view(&self) -> Metrics {
        Metrics { total_frames: self.total_frames, processing_time_us: self.processing_time_us }
    }

    /// An accumulator with both counters at zero.
    pub fn new() -> (metrics: Self)
        ensures
            metrics@ == Metrics::zero(),
    {
        MetricsAccumulator { total_frames: 0, processing_time_us: 0 }
    }

    /// Counts one more processed chunk and adds `elapsed_us` to the time
    /// spent.
    pub fn record(&mut self, elapsed_us: u64)
        ensures
            final(self)@ == old(self)@.recorded(elapsed_us),
    {
        self.total_frames = self.total_frames.wrapping_add(1);
        self.processing_time_us = self.processing_time_us.wrapping_add(elapsed_us);
    }

    /// Reads both counters: the chunk count first, then the time spent.
    pub fn snapshot(&self) -> (reading: (u64, u64))
        ensures
            reading.0 == self@.total_frames,
            reading.1 == self@.processing_time_us,
    {
        (self.total_frames, self.processing_time_us)
    }

    /// Sets both counters back to zero.
    pub fn reset(&mut self)
        ensures
            final(self)@ == Metrics::zero(),
    {
        self.total_frames = 0;
        self.processing_time_us = 0;
    }
}

/// The chunk count goes up by exactly one for every recorded chunk, as long
/// as it stays within 64 bits.
pub proof fn lemma_total_frames_counts_records(before: Metrics, elapsed_us: Seq<u64>)
    requires
        before.total_frames + elapsed_us.len() <= u64::MAX,
    ensures
        before.recorded_all(elapsed_us).total_frames == before.total_frames + elapsed_us.len(),
    decreases elapsed_us.len(),
{
    if elapsed_us.len() > 0 {
        lemma_total_frames_counts_records(before, elapsed_us.drop_last());
    }
}

/// The time spent never goes down when chunks are recorded, as long as it
/// stays within 64 bits: it goes up by the sum of what was recorded.
pub proof fn lemma_processing_time_accumulates(before: Metrics, elapsed_us: Seq<u64>)
    requires
        before.processing_time_us + total(elapsed_us) <= u64::MAX,
    ensures
        before.recorded_all(elapsed_us).processing_time_us == before.processing_time_us + total(
            elapsed_us,
        ),
        before.recorded_all(elapsed_us).processing_time_us >= before.processing_time_us,
    decreases elapsed_us.len(),
{
    lemma_total_non_negative(elapsed_us);
    if elapsed_us.len() > 0 {
        lemma_total_non_negative(elapsed_us.drop_last());
        lemma_processing_time_accumulates(before, elapsed_us.drop_last());
    }
}

/// A sum of unsigned amounts is not negative.
pub proof fn lemma_total_non_negative(amounts: Seq<u64>)
    ensures
        total(amounts) >= 0,
    decreases amounts.len(),
{
    if amounts.len() > 0 {
        lemma_total_non_negative(amounts.drop_last());
    }
}

} // verus!
