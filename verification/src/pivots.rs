//! Pivot levels of an anchor period, from the bar of the period before it.

use vstd::prelude::*;
use vstd::string::StringExecFns;
use crate::fixed::div_floor;
use crate::fixed::in_range;

verus! {

/// The method that the levels are computed by.
#[derive(Clone, Copy, Debug, PartialEq, Eq, Structural)]
pub enum PivotKind {
    /// Floor pivots: the pivot is the mean of high, low and close; the first
    /// resistance and support mirror the low and the high about the pivot; the
    /// second lie one range from the pivot; the third lie twice the pivot's
    /// distance from the low, or from the high, beyond the high, or the low.
    Classic,
    /// The pivot of the floor method, with the levels at 0.382, 0.618 and one
    /// range from it.
    Fibonacci,
    /// The levels of the floor method about a pivot that is the mean of the
    /// high, the low and twice the open of the period that begins.
    Woodie,
}

/// The pivot, three resistances above it and three supports below it, with the
/// prices that they were computed from. The levels stand until the next
/// period's bar replaces them.
#[derive(Clone, Copy, Debug, PartialEq, Eq, Structural)]
pub struct PivotState {
    pub p: i64,
    pub r1: i64,
    pub r2: i64,
    pub r3: i64,
    pub s1: i64,
    pub s2: i64,
    pub s3: i64,
    pub basis_h: i64,
    pub basis_l: i64,
    pub basis_c: i64,
    pub basis_o: i64,
    pub initialized: bool,
}

impl Default for PivotState {
    /// No levels yet.
    fn default() -> (s: Self)
        ensures
            s == PivotState::unset(),
    {
        PivotState {
            p: 0,
            r1: 0,
            r2: 0,
            r3: 0,
            s1: 0,
            s2: 0,
            s3: 0,
            basis_h: 0,
            basis_l: 0,
            basis_c: 0,
            basis_o: 0,
            initialized: false,
        }
    }
}

impl PivotKind {
    /// The method of a name: `fibonacci` and `woodie` name theirs, every other
    /// name the floor method.
    pub open spec fn named(name: Seq<char>) -> PivotKind {
        if name == "fibonacci"@ {
            PivotKind::Fibonacci
        } else if name == "woodie"@ {
            PivotKind::Woodie
        } else {
            PivotKind::Classic
        }
    }

    /// The method of a name.
    pub fn from_name(name: &String) -> (kind: PivotKind)
        ensures
            kind == Self::named(name@),
    {
        if *name == String::from_str("fibonacci") {
            PivotKind::Fibonacci
        } else if *name == String::from_str("woodie") {
            PivotKind::Woodie
        } else {
            PivotKind::Classic
        }
    }

    /// The pivot of a method, rounded down.
    pub open spec fn pivot(self, open: int, high: int, low: int, close: int) -> int {
        match self {
            PivotKind::Classic => (high + low + close) / 3,
            PivotKind::Fibonacci => (high + low + close) / 3,
            PivotKind::Woodie => (high + low + 2 * open) / 4,
        }
    }
}

impl PivotState {
    /// The state before any period has closed.
    pub open spec fn unset() -> PivotState {
        PivotState {
            p: 0,
            r1: 0,
            r2: 0,
            r3: 0,
            s1: 0,
            s2: 0,
            s3: 0,
            basis_h: 0,
            basis_l: 0,
            basis_c: 0,
            basis_o: 0,
            initialized: false,
        }
    }

    /// The levels of a method from the high, low and close of the period that
    /// has closed and the open of the period that begins.
    pub open spec fn levels(
        kind: PivotKind,
        open: i64,
        high: i64,
        low: i64,
        close: i64,
    ) -> PivotState {
        let p = kind.pivot(open as int, high as int, low as int, close as int);
        let range = high - low;
        match kind {
            PivotKind::Fibonacci => PivotState {
                p: p as i64,
                r1: (p + (382 * range) / 1000) as i64,
                r2: (p + (618 * range) / 1000) as i64,
                r3: (p + range) as i64,
                s1: (p - (382 * range) / 1000) as i64,
                s2: (p - (618 * range) / 1000) as i64,
                s3: (p - range) as i64,
                basis_h: high,
                basis_l: low,
                basis_c: close,
                basis_o: open,
                initialized: true,
            },
            _ => PivotState {
                p: p as i64,
                r1: (2 * p - low) as i64,
                r2: (p + range) as i64,
                r3: (high + 2 * (p - low)) as i64,
                s1: (2 * p - high) as i64,
                s2: (p - range) as i64,
                s3: (low - 2 * (high - p)) as i64,
                basis_h: high,
                basis_l: low,
                basis_c: close,
                basis_o: open,
                initialized: true,
            },
        }
    }

    /// The levels of a method from the prices of the prior period.
    pub fn from_prior(kind: PivotKind, open: i64, high: i64, low: i64, close: i64) -> (state:
        PivotState)
        requires
            in_range(open as int),
            in_range(high as int),
            in_range(low as int),
            in_range(close as int),
        ensures
            state == Self::levels(kind, open, high, low, close),
    {
        let around: i128 = high as i128 + low as i128;
        let p: i64 = match kind {
            PivotKind::Classic => div_floor(around + close as i128, 3) as i64,
            PivotKind::Fibonacci => div_floor(around + close as i128, 3) as i64,
            PivotKind::Woodie => div_floor(around + 2 * (open as i128), 4) as i64,
        };
        let range: i64 = high - low;
        match kind {
            PivotKind::Fibonacci => {
                let near: i64 = div_floor(382 * (range as i128), 1000) as i64;
                let far: i64 = div_floor(618 * (range as i128), 1000) as i64;
                PivotState {
                    p,
                    r1: p + near,
                    r2: p + far,
                    r3: p + range,
                    s1: p - near,
                    s2: p - far,
                    s3: p - range,
                    basis_h: high,
                    basis_l: low,
                    basis_c: close,
                    basis_o: open,
                    initialized: true,
                }
            },
            _ => PivotState {
                p,
                r1: 2 * p - low,
                r2: p + range,
                r3: high + 2 * (p - low),
                s1: 2 * p - high,
                s2: p - range,
                s3: low - 2 * (high - p),
                basis_h: high,
                basis_l: low,
                basis_c: close,
                basis_o: open,
                initialized: true,
            },
        }
    }
}

} // verus!
