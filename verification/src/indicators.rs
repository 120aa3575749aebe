//! Indicator interface and the indicators whose state holds no prices.
use vstd::prelude::*;

verus! {

/// An indicator that can be updated incrementally with a new value.
pub trait Indicator<T> {
    type Output;

    /// Update the indicator with a new value and return its output.
    fn update(&mut self, value: T) -> Self::Output;

    /// Reset the indicator to its initial state.
    fn reset(&mut self);

    /// Whether the indicator has enough data for a valid output.
    fn is_ready(&self) -> bool;
}

/// An indicator that computes its values over a whole series at once.
pub trait BatchIndicator<T> {
    type Output;

    /// Compute the indicator over the entire data slice.
    fn compute(&self, data: &[T]) -> Vec<Self::Output>;
}

/// Moving Average Convergence Divergence: its periods and how many values
/// it has seen. The exponential averages themselves are floating point and
/// are kept by the caller; this decides when the output is meaningful.
pub struct Macd {
    fast_period: usize,
    slow_period: usize,
    signal_period: usize,
    count: usize,
}

/// Number of values after which a MACD with these periods is ready: the
/// slower average's period, then the signal line's period over it (the
/// first signal value comes with the slow average's first value).
pub open spec fn macd_warmup(fast: nat, slow: nat, signal: nat) -> int {
    (if fast >= slow { fast } else { slow }) + signal - 1
}

impl Macd {
    /// Period of the fast average.
    pub closed spec fn fast(&self) -> nat {
        self.fast_period as nat
    }

    /// Period of the slow average.
    pub closed spec fn slow(&self) -> nat {
        self.slow_period as nat
    }

    /// Period of the signal line.
    pub closed spec fn signal(&self) -> nat {
        self.signal_period as nat
    }

    /// Number of values seen since creation or the last reset (saturating
    /// at `usize::MAX`).
    pub closed spec fn seen(&self) -> nat {
        self.count as nat
    }

    /// Whether enough values have been seen for the signal line: at least
    /// one, and at least the warm-up count.
    pub open spec fn ready(&self) -> bool {
        self.seen() >= 1 && self.seen() >= macd_warmup(self.fast(), self.slow(), self.signal())
    }

    /// A MACD with the given periods that has seen no value.
    pub fn new(fast_period: usize, slow_period: usize, signal_period: usize) -> (m: Self)
        ensures
            m.fast() == fast_period,
            m.slow() == slow_period,
            m.signal() == signal_period,
            m.seen() == 0,
            !m.ready(),
    {
        Macd { fast_period, slow_period, signal_period, count: 0 }
    }

    /// Period of the fast average.
    pub fn fast_period(&self) -> (r: usize)
        ensures
            r == self.fast(),
    {
        self.fast_period
    }

    /// Period of the slow average.
    pub fn slow_period(&self) -> (r: usize)
        ensures
            r == self.slow(),
    {
        self.slow_period
    }

    /// Period of the signal line.
    pub fn signal_period(&self) -> (r: usize)
        ensures
            r == self.signal(),
    {
        self.signal_period
    }

    /// Number of values seen.
    pub fn count(&self) -> (r: usize)
        ensures
            r == self.seen(),
    {
        self.count
    }

    /// Count one more value.
    pub fn record_update(&mut self)
        ensures
            final(self).fast() == old(self).fast(),
            final(self).slow() == old(self).slow(),
            final(self).signal() == old(self).signal(),
            final(self).seen() == (if old(self).seen() < usize::MAX { old(self).seen() + 1 } else { old(self).seen() }),
    {
        if self.count < usize::MAX {
            self.count = self.count + 1;
        }
    }

    /// Whether enough values have been seen for the signal line.
    pub fn is_ready(&self) -> (b: bool)
        ensures
            b == self.ready(),
    {
        let longer: u128 = if self.fast_period >= self.slow_period { self.fast_period as u128 } else { self.slow_period as u128 };
        self.count >= 1 && self.count as u128 + 1 >= longer + self.signal_period as u128
    }

    /// Forget every value seen; the periods stay.
    pub fn reset(&mut self)
        ensures
            final(self).fast() == old(self).fast(),
            final(self).slow() == old(self).slow(),
            final(self).signal() == old(self).signal(),
            final(self).seen() == 0,
            !final(self).ready(),
    {
        self.count = 0;
    }
}

/// Volume Weighted Average Price (pass-through: reports the latest
/// value and is always ready).
pub struct Vwap {}

impl Vwap {
    /// Whether the indicator reports values: always, as it passes its
    /// input through.
    pub open spec fn ready(&self) -> bool {
        true
    }

    /// A new VWAP.
    pub fn new() -> (v: Self)
        ensures
            v.ready(),
    {
        Vwap {}
    }
}

impl Default for Vwap {
    fn default() -> (v: Self)
        ensures
            v.ready(),
    {
        Vwap::new()
    }
}

impl<T> Indicator<T> for Vwap {
    type Output = T;

    fn update(&mut self, value: T) -> (out: T)
        ensures
            out == value,
    {
        value
    }

    fn reset(&mut self) {
    }

    fn is_ready(&self) -> bool
        returns
            self.ready(),
    {
        true
    }
}

} // verus!
