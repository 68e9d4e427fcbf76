use technicals::adx::AdxValue;
use technicals::bollinger::BollingerValue;
use technicals::chop::ChopValue;
use technicals::engine::Entry;
use technicals::fixed::UNIT;
use technicals::indicator::IndicatorKey;
use technicals::indicator::Reading;
use technicals::label::append_decimal;
use technicals::label::append_ticks;
use technicals::label::Line;
use technicals::macd::MacdValue;
use technicals::pivots::PivotKind;
use technicals::pivots::PivotState;
use technicals::psar::PsarValue;
use technicals::settings::VwapSettings;
use technicals::stochastic::StochValue;
use technicals::supertrend::SuperTrendValue;
use technicals::supertrend::Trend;

fn decimal(n: u64) -> String {
    let mut s = String::from("#");
    append_decimal(&mut s, n);
    s
}

fn ticks(t: i64) -> String {
    let mut s = String::new();
    append_ticks(&mut s, t);
    s
}

fn anchors() -> Vec<VwapSettings> {
    vec![
        VwapSettings { anchor: String::from("session") },
        VwapSettings { anchor: String::from("week") },
    ]
}

fn line(label: &str, value: i128) -> Line {
    Line { label: String::from(label), value }
}

#[test]
fn numbers_in_decimal() {
    assert_eq!(decimal(0), "#0");
    assert_eq!(decimal(7), "#7");
    assert_eq!(decimal(10), "#10");
    assert_eq!(decimal(200), "#200");
    assert_eq!(decimal(1234567890), "#1234567890");
    assert_eq!(decimal(u64::MAX), "#18446744073709551615");
}

#[test]
fn ticks_as_units() {
    assert_eq!(ticks(0), "0");
    assert_eq!(ticks(3 * UNIT), "3");
    assert_eq!(ticks(4_500_000), "4.5");
    assert_eq!(ticks(20_000), "0.02");
    assert_eq!(ticks(200_000), "0.2");
    assert_eq!(ticks(1), "0.000001");
    assert_eq!(ticks(10), "0.00001");
    assert_eq!(ticks(123_456_789), "123.456789");
    assert_eq!(ticks(100_000_010), "100.00001");
    assert_eq!(ticks(-1_500_000), "-1.5");
    assert_eq!(ticks(-2 * UNIT), "-2");
    assert_eq!(ticks(i64::MAX), "9223372036854.775807");
    assert_eq!(ticks(i64::MIN), "-9223372036854.775808");
}

#[test]
fn labels_of_the_families() {
    assert_eq!(IndicatorKey::Ema { length: 20 }.label(&anchors()), "EMA20");
    assert_eq!(IndicatorKey::Sma { length: 50 }.label(&anchors()), "SMA50");
    assert_eq!(IndicatorKey::Wma { length: 9 }.label(&anchors()), "WMA9");
    assert_eq!(IndicatorKey::Vwma { length: 10 }.label(&anchors()), "VWMA10");
    assert_eq!(IndicatorKey::Hma { length: 16 }.label(&anchors()), "HMA16");
    assert_eq!(IndicatorKey::Rsi { length: 14 }.label(&anchors()), "RSI14");
    assert_eq!(IndicatorKey::Macd { fast: 12, slow: 26, signal: 9 }.label(&anchors()), "12-26-9");
    assert_eq!(IndicatorKey::Bb { length: 20, multiplier: 2 * UNIT }.label(&anchors()), "BB20-2");
    let wide = IndicatorKey::Bb { length: 20, multiplier: 2_500_000 };
    assert_eq!(wide.label(&anchors()), "BB20-2.5");
    assert_eq!(IndicatorKey::Atr { length: 14 }.label(&anchors()), "ATR14");
    assert_eq!(IndicatorKey::Stoch { k: 14, d: 3, smooth: 3 }.label(&anchors()), "STOCH_14-3-3");
    assert_eq!(IndicatorKey::Cci { length: 20 }.label(&anchors()), "CCI20");
    assert_eq!(IndicatorKey::Adx { length: 14 }.label(&anchors()), "ADX14");
    assert_eq!(
        IndicatorKey::SuperTrend { length: 10, multiplier: 3 * UNIT }.label(&anchors()),
        "SuperTrend_10-3"
    );
    assert_eq!(
        IndicatorKey::SuperTrend { length: 14, multiplier: 4_500_000 }.label(&anchors()),
        "SuperTrend_14-4.5"
    );
    assert_eq!(IndicatorKey::Mom { length: 10 }.label(&anchors()), "MOM10");
    assert_eq!(IndicatorKey::Wr { length: 14 }.label(&anchors()), "WR14");
    assert_eq!(IndicatorKey::VolMa { length: 20 }.label(&anchors()), "VolMa20");
    assert_eq!(IndicatorKey::Chop { length: 14 }.label(&anchors()), "CHOP14");
    assert_eq!(IndicatorKey::Mfi { length: 14 }.label(&anchors()), "MFI14");
    assert_eq!(
        IndicatorKey::Psar { start: 20_000, increment: 20_000, max: 200_000 }.label(&anchors()),
        "PSAR_0.02-0.02-0.2"
    );
    assert_eq!(IndicatorKey::Ema { length: 0 }.label(&anchors()), "EMA0");
    assert_eq!(IndicatorKey::Vwap { slot: 0 }.label(&anchors()), "VWAP_session");
    assert_eq!(IndicatorKey::Vwap { slot: 1 }.label(&anchors()), "VWAP_week");
    assert_eq!(IndicatorKey::Vwap { slot: 2 }.label(&anchors()), "VWAP_");
    assert_eq!(IndicatorKey::Vwap { slot: 0 }.label(&vec![]), "VWAP_");
}

#[test]
fn lines_of_the_readings() {
    let single = Entry { key: IndicatorKey::Rsi { length: 14 }, reading: Reading::Single(55) };
    assert_eq!(single.lines(&anchors()), vec![line("RSI14", 55)]);
    let anchored = Entry { key: IndicatorKey::Vwap { slot: 1 }, reading: Reading::Single(7) };
    assert_eq!(anchored.lines(&anchors()), vec![line("VWAP_week", 7)]);
    let macd = Entry {
        key: IndicatorKey::Macd { fast: 12, slow: 26, signal: 9 },
        reading: Reading::Macd(MacdValue { macd: 3, signal: 2, histogram: 1 }),
    };
    assert_eq!(
        macd.lines(&anchors()),
        vec![line("12-26-9.macd", 3), line("12-26-9.signal", 2), line("12-26-9.histogram", 1)]
    );
    let bands = Entry {
        key: IndicatorKey::Bb { length: 20, multiplier: 2 * UNIT },
        reading: Reading::Bands(BollingerValue { upper: 9, lower: 5, basis: 7, percent_b: 1 }),
    };
    assert_eq!(
        bands.lines(&anchors()),
        vec![
            line("BB20-2_upper", 9),
            line("BB20-2_lower", 5),
            line("BB20-2_basis", 7),
            line("BB20-2_percent_b", 1)
        ]
    );
    let stoch = Entry {
        key: IndicatorKey::Stoch { k: 14, d: 3, smooth: 3 },
        reading: Reading::Stoch(StochValue { k: 80, d: 70 }),
    };
    assert_eq!(
        stoch.lines(&anchors()),
        vec![line("STOCH_14-3-3.d", 70), line("STOCH_14-3-3.k", 80)]
    );
    let adx = Entry {
        key: IndicatorKey::Adx { length: 14 },
        reading: Reading::Adx(AdxValue { adx: 30, plus_di: 20, minus_di: 10 }),
    };
    assert_eq!(
        adx.lines(&anchors()),
        vec![line("ADX14", 30), line("ADX14_plus", 20), line("ADX14_minus", 10)]
    );
    let trend = Entry {
        key: IndicatorKey::SuperTrend { length: 10, multiplier: 3 * UNIT },
        reading: Reading::SuperTrend(SuperTrendValue {
            trend: Trend::Down,
            upper: 9,
            lower: 5,
            line: 9,
        }),
    };
    assert_eq!(
        trend.lines(&anchors()),
        vec![
            line("SuperTrend_10-3", -(UNIT as i128)),
            line("SuperTrend_10-3_upper", 9),
            line("SuperTrend_10-3_lower", 5),
            line("SuperTrend_10-3_line", 9)
        ]
    );
    let up = Entry {
        key: IndicatorKey::SuperTrend { length: 10, multiplier: 3 * UNIT },
        reading: Reading::SuperTrend(SuperTrendValue {
            trend: Trend::Up,
            upper: 9,
            lower: 5,
            line: 5,
        }),
    };
    assert_eq!(up.lines(&anchors())[0], line("SuperTrend_10-3", UNIT as i128));
    let stop = Entry {
        key: IndicatorKey::Psar { start: 20_000, increment: 20_000, max: 200_000 },
        reading: Reading::Psar(PsarValue { sar: 44, is_long: true }),
    };
    assert_eq!(
        stop.lines(&anchors()),
        vec![line("PSAR_0.02-0.02-0.2", 44), line("PSAR_0.02-0.02-0.2_long", UNIT as i128)]
    );
    let chop = Entry {
        key: IndicatorKey::Chop { length: 14 },
        reading: Reading::Chop(ChopValue { tr_sum: 10, range: 4 }),
    };
    assert_eq!(chop.lines(&anchors()), Vec::<Line>::new());
}

#[test]
fn lines_of_the_pivot_levels() {
    let levels = PivotState::from_prior(PivotKind::Classic, 0, 10, 7, 9);
    assert_eq!(
        levels.lines(),
        vec![
            line("P", 8),
            line("R1", 9),
            line("R2", 11),
            line("R3", 12),
            line("S1", 6),
            line("S2", 5),
            line("S3", 3)
        ]
    );
}
