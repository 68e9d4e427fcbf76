//! One price bar.

use vstd::prelude::*;
use crate::fixed::clamp;
use crate::fixed::clamped;
use crate::fixed::in_range;
use crate::fixed::value_in_range;

verus! {

/// One of the four series that the history keeps.
#[derive(Clone, Copy, Debug, PartialEq, Eq, Structural)]
pub enum Source {
    Close,
    High,
    Low,
    Volume,
}

/// One bar of an instrument: four prices and a volume, in ticks, and the time of
/// the bar, which the engine carries but never reads.
#[derive(Clone, Copy, Debug, PartialEq, Eq, Structural)]
pub struct Bar {
    pub open: i64,
    pub high: i64,
    pub low: i64,
    pub close: i64,
    pub volume: i64,
    pub timestamp: i64,
}

impl Bar {
    /// Prices and volume are of admissible magnitude. Nothing is asked of how
    /// they lie to one another.
    pub open spec fn in_range(&self) -> bool {
        &&& in_range(self.open as int)
        &&& in_range(self.high as int)
        &&& in_range(self.low as int)
        &&& in_range(self.close as int)
        &&& in_range(self.volume as int)
    }

    /// The bar with each price and the volume clamped to what is admissible.
    pub open spec fn clamped(&self) -> Bar {
        Bar {
            open: clamped(self.open),
            high: clamped(self.high),
            low: clamped(self.low),
            close: clamped(self.close),
            volume: clamped(self.volume),
            timestamp: self.timestamp,
        }
    }

    /// The close lies between the low and the high.
    pub open spec fn ordered(&self) -> bool {
        self.low <= self.close <= self.high
    }

    /// The bar's value for one of the four series.
    pub open spec fn field(&self, source: Source) -> i64 {
        match source {
            Source::Close => self.close,
            Source::High => self.high,
            Source::Low => self.low,
            Source::Volume => self.volume,
        }
    }

    /// Typical price: the mean of high, low and close, rounded down.
    pub open spec fn typical(&self) -> int {
        (self.high + self.low + self.close) / 3
    }

    /// A bar of the six given values.
    pub fn new(open: i64, high: i64, low: i64, close: i64, volume: i64, timestamp: i64) -> (bar:
        Bar)
        ensures
            bar == (Bar { open, high, low, close, volume, timestamp }),
    {
        Bar { open, high, low, close, volume, timestamp }
    }

    /// The bar with each price and the volume clamped to what is admissible.
    pub fn admitted(&self) -> (bar: Bar)
        ensures
            bar == self.clamped(),
            bar.in_range(),
    {
        Bar {
            open: clamp(self.open),
            high: clamp(self.high),
            low: clamp(self.low),
            close: clamp(self.close),
            volume: clamp(self.volume),
            timestamp: self.timestamp,
        }
    }

    /// Whether prices and volume are of admissible magnitude.
    pub fn is_in_range(&self) -> (ok: bool)
        ensures
            ok == self.in_range(),
    {
        value_in_range(self.open) && value_in_range(self.high) && value_in_range(self.low)
            && value_in_range(self.close) && value_in_range(self.volume)
    }

    /// The bar's value for one of the four series.
    pub fn get(&self, source: Source) -> (x: i64)
        ensures
            x == self.field(source),
    {
        match source {
            Source::Close => self.close,
            Source::High => self.high,
            Source::Low => self.low,
            Source::Volume => self.volume,
        }
    }

    /// Whether the close lies between the low and the high.
    pub fn is_ordered(&self) -> (ok: bool)
        ensures
            ok == self.ordered(),
    {
        self.low <= self.close && self.close <= self.high
    }

    /// Typical price: the mean of high, low and close, rounded down.
    pub fn typical_price(&self) -> (tp: i64)
        requires
            self.in_range(),
        ensures
            tp == self.typical(),
            in_range(tp as int),
    {
        let sum: i64 = self.high + self.low + self.close;
        if sum >= 0 {
            sum / 3
        } else {
            let m: i64 = -sum;
            let t: i64 = (m - 1) / 3;
            -t - 1
        }
    }
}

} // verus!
