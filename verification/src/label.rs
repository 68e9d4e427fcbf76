//! The text labels that readings are published under.

use vstd::prelude::*;
use vstd::string::StringExecFns;
use crate::fixed::UNIT;
use crate::engine::Entry;
use crate::indicator::IndicatorKey;
use crate::indicator::Reading;
use crate::pivots::PivotState;
use crate::settings::VwapSettings;
use crate::supertrend::Trend;

verus! {

/// The character of one decimal digit.
pub open spec fn digit_char(d: int) -> char {
    if d == 0 {
        '0'
    } else if d == 1 {
        '1'
    } else if d == 2 {
        '2'
    } else if d == 3 {
        '3'
    } else if d == 4 {
        '4'
    } else if d == 5 {
        '5'
    } else if d == 6 {
        '6'
    } else if d == 7 {
        '7'
    } else if d == 8 {
        '8'
    } else {
        '9'
    }
}

/// A number in decimal digits, without leading zeros.
pub open spec fn decimal(n: nat) -> Seq<char>
    decreases n,
{
    if n < 10 {
        seq![digit_char(n as int)]
    } else {
        decimal(n / 10).push(digit_char((n % 10) as int))
    }
}

/// The digits of a fraction below `10 * unit`, most significant first, without
/// trailing zeros. `unit` is the weight of the first digit.
pub open spec fn fraction(f: nat, unit: nat) -> Seq<char>
    decreases unit,
{
    if f == 0 || unit == 0 {
        Seq::empty()
    } else {
        seq![digit_char((f / unit) as int)] + fraction(f % unit, unit / 10)
    }
}

/// A tick count as a decimal number of units: a minus sign if it is negative,
/// the whole units, and, where the count is not a whole number of units, a
/// point and the digits of the fraction without trailing zeros.
pub open spec fn ticks_text(t: int) -> Seq<char> {
    let m: nat = if t < 0 {
        (-t) as nat
    } else {
        t as nat
    };
    let sign = if t < 0 {
        seq!['-']
    } else {
        Seq::empty()
    };
    let whole = decimal(m / (UNIT as nat));
    let part = m % (UNIT as nat);
    if part == 0 {
        sign + whole
    } else {
        sign + whole + seq!['.'] + fraction(part, 100_000)
    }
}

/// The name of the anchor at a position of the configured anchors; empty
/// beyond them.
pub open spec fn anchor_text(anchors: Seq<VwapSettings>, slot: int) -> Seq<char> {
    if 0 <= slot < anchors.len() {
        anchors[slot].anchor@
    } else {
        Seq::empty()
    }
}

/// The label of a key: the family's name and every parameter of the key. An
/// average over an anchor is named by the anchor that the configuration holds
/// at the key's position.
pub open spec fn label_text(key: IndicatorKey, anchors: Seq<VwapSettings>) -> Seq<char> {
    match key {
        IndicatorKey::Ema { length } => "EMA"@ + decimal(length as nat),
        IndicatorKey::Sma { length } => "SMA"@ + decimal(length as nat),
        IndicatorKey::Wma { length } => "WMA"@ + decimal(length as nat),
        IndicatorKey::Vwma { length } => "VWMA"@ + decimal(length as nat),
        IndicatorKey::Hma { length } => "HMA"@ + decimal(length as nat),
        IndicatorKey::Rsi { length } => "RSI"@ + decimal(length as nat),
        IndicatorKey::Macd { fast, slow, signal } => decimal(fast as nat) + "-"@ + decimal(
            slow as nat,
        ) + "-"@ + decimal(signal as nat),
        IndicatorKey::Bb { length, multiplier } => "BB"@ + decimal(length as nat) + "-"@
            + ticks_text(multiplier as int),
        IndicatorKey::Atr { length } => "ATR"@ + decimal(length as nat),
        IndicatorKey::Stoch { k, d, smooth } => "STOCH_"@ + decimal(k as nat) + "-"@ + decimal(
            d as nat,
        ) + "-"@ + decimal(smooth as nat),
        IndicatorKey::Cci { length } => "CCI"@ + decimal(length as nat),
        IndicatorKey::Adx { length } => "ADX"@ + decimal(length as nat),
        IndicatorKey::SuperTrend { length, multiplier } => "SuperTrend_"@ + decimal(length as nat)
            + "-"@ + ticks_text(multiplier as int),
        IndicatorKey::Mom { length } => "MOM"@ + decimal(length as nat),
        IndicatorKey::Wr { length } => "WR"@ + decimal(length as nat),
        IndicatorKey::VolMa { length } => "VolMa"@ + decimal(length as nat),
        IndicatorKey::Chop { length } => "CHOP"@ + decimal(length as nat),
        IndicatorKey::Mfi { length } => "MFI"@ + decimal(length as nat),
        IndicatorKey::Psar { start, increment, max } => "PSAR_"@ + ticks_text(start as int) + "-"@
            + ticks_text(increment as int) + "-"@ + ticks_text(max as int),
        IndicatorKey::Vwap { slot } => "VWAP_"@ + anchor_text(anchors, slot as int),
    }
}

/// The text of one decimal digit.
fn digit_text(d: u8) -> (s: &'static str)
    requires
        d < 10,
    ensures
        s@ == seq![digit_char(d as int)],
{
    proof {
        reveal_strlit("0");
        reveal_strlit("1");
        reveal_strlit("2");
        reveal_strlit("3");
        reveal_strlit("4");
        reveal_strlit("5");
        reveal_strlit("6");
        reveal_strlit("7");
        reveal_strlit("8");
        reveal_strlit("9");
    }
    let s = if d == 0 {
        "0"
    } else if d == 1 {
        "1"
    } else if d == 2 {
        "2"
    } else if d == 3 {
        "3"
    } else if d == 4 {
        "4"
    } else if d == 5 {
        "5"
    } else if d == 6 {
        "6"
    } else if d == 7 {
        "7"
    } else if d == 8 {
        "8"
    } else {
        "9"
    };
    assert(s@ =~= seq![digit_char(d as int)]);
    s
}

/// Appends a number in decimal digits.
pub fn append_decimal(out: &mut String, n: u64)
    ensures
        final(out)@ == old(out)@ + decimal(n as nat),
    decreases n,
{
    if n >= 10 {
        append_decimal(out, n / 10);
    }
    out.append(digit_text((n % 10) as u8));
    proof {
        if n >= 10 {
            assert(out@ =~= old(out)@ + decimal(n as nat));
        } else {
            assert(out@ =~= old(out)@ + decimal(n as nat));
        }
    }
}

/// The weight of a digit of a fraction of a unit, or zero.
spec fn is_weight(unit: u64) -> bool {
    unit == 0 || unit == 1 || unit == 10 || unit == 100 || unit == 1_000 || unit == 10_000 || unit
        == 100_000
}

/// Appends the digits of a fraction without trailing zeros.
fn append_fraction(out: &mut String, f: u64, unit: u64)
    requires
        is_weight(unit),
        f == 0 || f < 10 * unit,
    ensures
        final(out)@ == old(out)@ + fraction(f as nat, unit as nat),
    decreases unit,
{
    if f == 0 || unit == 0 {
        assert(out@ =~= old(out)@ + fraction(f as nat, unit as nat));
        return;
    }
    assert(f / unit < 10) by (nonlinear_arith)
        requires
            f < 10 * unit,
            unit > 0,
    ;
    out.append(digit_text((f / unit) as u8));
    let rest: u64 = f % unit;
    append_fraction(out, rest, unit / 10);
    assert(out@ =~= old(out)@ + fraction(f as nat, unit as nat));
}

/// Appends a tick count as a decimal number of units.
pub fn append_ticks(out: &mut String, t: i64)
    ensures
        final(out)@ == old(out)@ + ticks_text(t as int),
{
    proof {
        reveal_strlit("-");
        reveal_strlit(".");
    }
    let m: u64 = if t < 0 {
        out.append("-");
        (-(t as i128)) as u64
    } else {
        t as u64
    };
    let unit: u64 = UNIT as u64;
    append_decimal(out, m / unit);
    let part: u64 = m % unit;
    if part != 0 {
        out.append(".");
        append_fraction(out, part, 100_000);
    }
    assert(out@ =~= old(out)@ + ticks_text(t as int));
}

/// Appends a lookback in decimal digits.
fn append_length(out: &mut String, n: usize)
    ensures
        final(out)@ == old(out)@ + decimal(n as nat),
{
    append_decimal(out, n as u64);
}

impl IndicatorKey {
    /// The label of the key, given the configured anchors.
    pub fn label(&self, anchors: &Vec<VwapSettings>) -> (s: String)
        ensures
            s@ == label_text(*self, anchors@),
    {
        let mut s = String::new();
        match *self {
            IndicatorKey::Ema { length } => {
                s.append("EMA");
                append_length(&mut s, length);
            },
            IndicatorKey::Sma { length } => {
                s.append("SMA");
                append_length(&mut s, length);
            },
            IndicatorKey::Wma { length } => {
                s.append("WMA");
                append_length(&mut s, length);
            },
            IndicatorKey::Vwma { length } => {
                s.append("VWMA");
                append_length(&mut s, length);
            },
            IndicatorKey::Hma { length } => {
                s.append("HMA");
                append_length(&mut s, length);
            },
            IndicatorKey::Rsi { length } => {
                s.append("RSI");
                append_length(&mut s, length);
            },
            IndicatorKey::Macd { fast, slow, signal } => {
                append_length(&mut s, fast);
                s.append("-");
                append_length(&mut s, slow);
                s.append("-");
                append_length(&mut s, signal);
            },
            IndicatorKey::Bb { length, multiplier } => {
                s.append("BB");
                append_length(&mut s, length);
                s.append("-");
                append_ticks(&mut s, multiplier);
            },
            IndicatorKey::Atr { length } => {
                s.append("ATR");
                append_length(&mut s, length);
            },
            IndicatorKey::Stoch { k, d, smooth } => {
                s.append("STOCH_");
                append_length(&mut s, k);
                s.append("-");
                append_length(&mut s, d);
                s.append("-");
                append_length(&mut s, smooth);
            },
            IndicatorKey::Cci { length } => {
                s.append("CCI");
                append_length(&mut s, length);
            },
            IndicatorKey::Adx { length } => {
                s.append("ADX");
                append_length(&mut s, length);
            },
            IndicatorKey::SuperTrend { length, multiplier } => {
                s.append("SuperTrend_");
                append_length(&mut s, length);
                s.append("-");
                append_ticks(&mut s, multiplier);
            },
            IndicatorKey::Mom { length } => {
                s.append("MOM");
                append_length(&mut s, length);
            },
            IndicatorKey::Wr { length } => {
                s.append("WR");
                append_length(&mut s, length);
            },
            IndicatorKey::VolMa { length } => {
                s.append("VolMa");
                append_length(&mut s, length);
            },
            IndicatorKey::Chop { length } => {
                s.append("CHOP");
                append_length(&mut s, length);
            },
            IndicatorKey::Mfi { length } => {
                s.append("MFI");
                append_length(&mut s, length);
            },
            IndicatorKey::Psar { start, increment, max } => {
                s.append("PSAR_");
                append_ticks(&mut s, start);
                s.append("-");
                append_ticks(&mut s, increment);
                s.append("-");
                append_ticks(&mut s, max);
            },
            IndicatorKey::Vwap { slot } => {
                s.append("VWAP_");
                if slot < anchors.len() {
                    s.append(anchors[slot].anchor.as_str());
                }
            },
        }
        assert(s@ =~= label_text(*self, anchors@));
        s
    }
}

/// One published number: its label, and its value in ticks.
#[derive(Clone, Debug, PartialEq, Eq)]
pub struct Line {
    pub label: String,
    pub value: i128,
}

/// What a line says.
pub open spec fn said(line: Line) -> (Seq<char>, i128) {
    (line.label@, line.value)
}

/// What a list of lines says, line by line.
pub open spec fn all_said(lines: Seq<Line>) -> Seq<(Seq<char>, i128)> {
    Seq::new(lines.len(), |i: int| said(lines[i]))
}

/// The trend as a number: one unit for up, minus one unit for down.
pub open spec fn trend_value(trend: Trend) -> i128 {
    match trend {
        Trend::Up => UNIT as i128,
        Trend::Down => (-UNIT) as i128,
    }
}

/// A flag as a number: one unit if it is set, zero if not.
pub open spec fn flag_value(flag: bool) -> i128 {
    if flag {
        UNIT as i128
    } else {
        0
    }
}

/// The lines of an entry: one for each number of its reading, under the key's
/// label with the number's suffix. The choppiness quantities have no line: an
/// index in ticks cannot be had from them without a logarithm.
pub open spec fn lines_text(entry: Entry, anchors: Seq<VwapSettings>) -> Seq<(Seq<char>, i128)> {
    let name = label_text(entry.key, anchors);
    match entry.reading {
        Reading::Single(v) => seq![(name, v)],
        Reading::Macd(v) => seq![
            (name + ".macd"@, v.macd as i128),
            (name + ".signal"@, v.signal as i128),
            (name + ".histogram"@, v.histogram as i128),
        ],
        Reading::Bands(v) => seq![
            (name + "_upper"@, v.upper),
            (name + "_lower"@, v.lower),
            (name + "_basis"@, v.basis as i128),
            (name + "_percent_b"@, v.percent_b),
        ],
        Reading::Stoch(v) => seq![(name + ".d"@, v.d), (name + ".k"@, v.k)],
        Reading::Adx(v) => seq![
            (name, v.adx as i128),
            (name + "_plus"@, v.plus_di),
            (name + "_minus"@, v.minus_di),
        ],
        Reading::SuperTrend(v) => seq![
            (name, trend_value(v.trend)),
            (name + "_upper"@, v.upper),
            (name + "_lower"@, v.lower),
            (name + "_line"@, v.line),
        ],
        Reading::Chop(v) => Seq::empty(),
        Reading::Psar(v) => seq![(name, v.sar as i128), (name + "_long"@, flag_value(v.is_long))],
    }
}

/// A line under the key's label with a suffix.
fn suffixed(
    key: &IndicatorKey,
    anchors: &Vec<VwapSettings>,
    suffix: &str,
    value: i128,
) -> (line: Line)
    ensures
        said(line) == (label_text(*key, anchors@) + suffix@, value),
{
    let mut label = key.label(anchors);
    label.append(suffix);
    Line { label, value }
}

/// A line under the key's label.
fn plain(key: &IndicatorKey, anchors: &Vec<VwapSettings>, value: i128) -> (line: Line)
    ensures
        said(line) == (label_text(*key, anchors@), value),
{
    Line { label: key.label(anchors), value }
}

impl Entry {
    /// The lines of the entry, given the configured anchors.
    pub fn lines(&self, anchors: &Vec<VwapSettings>) -> (lines: Vec<Line>)
        ensures
            all_said(lines@) == lines_text(*self, anchors@),
    {
        let key = &self.key;
        let mut lines: Vec<Line> = Vec::new();
        match self.reading {
            Reading::Single(v) => {
                lines.push(plain(key, anchors, v));
            },
            Reading::Macd(v) => {
                lines.push(suffixed(key, anchors, ".macd", v.macd as i128));
                lines.push(suffixed(key, anchors, ".signal", v.signal as i128));
                lines.push(suffixed(key, anchors, ".histogram", v.histogram as i128));
            },
            Reading::Bands(v) => {
                lines.push(suffixed(key, anchors, "_upper", v.upper));
                lines.push(suffixed(key, anchors, "_lower", v.lower));
                lines.push(suffixed(key, anchors, "_basis", v.basis as i128));
                lines.push(suffixed(key, anchors, "_percent_b", v.percent_b));
            },
            Reading::Stoch(v) => {
                lines.push(suffixed(key, anchors, ".d", v.d));
                lines.push(suffixed(key, anchors, ".k", v.k));
            },
            Reading::Adx(v) => {
                lines.push(plain(key, anchors, v.adx as i128));
                lines.push(suffixed(key, anchors, "_plus", v.plus_di));
                lines.push(suffixed(key, anchors, "_minus", v.minus_di));
            },
            Reading::SuperTrend(v) => {
                let trend: i128 = match v.trend {
                    Trend::Up => UNIT as i128,
                    Trend::Down => -(UNIT as i128),
                };
                lines.push(plain(key, anchors, trend));
                lines.push(suffixed(key, anchors, "_upper", v.upper));
                lines.push(suffixed(key, anchors, "_lower", v.lower));
                lines.push(suffixed(key, anchors, "_line", v.line));
            },
            Reading::Chop(v) => {},
            Reading::Psar(v) => {
                let long: i128 = if v.is_long {
                    UNIT as i128
                } else {
                    0
                };
                lines.push(plain(key, anchors, v.sar as i128));
                lines.push(suffixed(key, anchors, "_long", long));
            },
        }
        assert(all_said(lines@) =~= lines_text(*self, anchors@));
        lines
    }
}

/// The lines of a set of pivot levels: the pivot, the three resistances and the
/// three supports.
pub open spec fn pivot_lines_text(levels: PivotState) -> Seq<(Seq<char>, i128)> {
    seq![
        ("P"@, levels.p as i128),
        ("R1"@, levels.r1 as i128),
        ("R2"@, levels.r2 as i128),
        ("R3"@, levels.r3 as i128),
        ("S1"@, levels.s1 as i128),
        ("S2"@, levels.s2 as i128),
        ("S3"@, levels.s3 as i128),
    ]
}

/// A line under a fixed label.
fn named(label: &str, value: i64) -> (line: Line)
    ensures
        said(line) == (label@, value as i128),
{
    Line { label: String::from_str(label), value: value as i128 }
}

impl PivotState {
    /// The lines of the levels.
    pub fn lines(&self) -> (lines: Vec<Line>)
        ensures
            all_said(lines@) == pivot_lines_text(*self),
    {
        let mut lines: Vec<Line> = Vec::new();
        lines.push(named("P", self.p));
        lines.push(named("R1", self.r1));
        lines.push(named("R2", self.r2));
        lines.push(named("R3", self.r3));
        lines.push(named("S1", self.s1));
        lines.push(named("S2", self.s2));
        lines.push(named("S3", self.s3));
        assert(all_said(lines@) =~= pivot_lines_text(*self));
        lines
    }
}

} // verus!
