//! Counters of the market-data pipeline: events drained from the ring and
//! candles completed.
use vstd::prelude::*;

verus! {

/// How many events the pipeline has processed and how many candles it has
/// completed since it was created or last reset.
pub struct PipelineStats {
    ticks: u64,
    candles: u64,
}

impl PipelineStats {
    /// Events processed.
    pub closed spec fn ticks(&self) -> nat {
        self.ticks as nat
    }

    /// Candles completed.
    pub closed spec fn candles(&self) -> nat {
        self.candles as nat
    }

    /// Both counters at zero.
    pub fn new() -> (s: Self)
        ensures
            s.ticks() == 0,
            s.candles() == 0,
    {
        PipelineStats { ticks: 0, candles: 0 }
    }

    /// Count one processed event.
    pub fn record_event(&mut self)
        requires
            old(self).ticks() < u64::MAX,
        ensures
            final(self).ticks() == old(self).ticks() + 1,
            final(self).candles() == old(self).candles(),
    {
        self.ticks = self.ticks + 1;
    }

    /// Count one completed candle.
    pub fn record_candle(&mut self)
        requires
            old(self).candles() < u64::MAX,
        ensures
            final(self).candles() == old(self).candles() + 1,
            final(self).ticks() == old(self).ticks(),
    {
        self.candles = self.candles + 1;
    }

    /// Number of events processed.
    pub fn ticks_processed(&self) -> (n: u64)
        ensures
            n == self.ticks(),
    {
        self.ticks
    }

    /// Number of candles completed.
    pub fn candles_produced(&self) -> (n: u64)
        ensures
            n == self.candles(),
    {
        self.candles
    }

    /// Set both counters back to zero.
    pub fn reset(&mut self)
        ensures
            final(self).ticks() == 0,
            final(self).candles() == 0,
    {
        self.ticks = 0;
        self.candles = 0;
    }
}

} // verus!
