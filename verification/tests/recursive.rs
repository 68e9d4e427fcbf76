use technicals::adx::directional_index_of;
use technicals::adx::directional_moves_of;
use technicals::adx::dx_of;
use technicals::adx::moves_of;
use technicals::adx::AdxState;
use technicals::adx::AdxValue;
use technicals::atr::AtrState;
use technicals::bar::Bar;
use technicals::ema::ema_over;
use technicals::ema::EmaState;
use technicals::fixed::HUNDRED;
use technicals::fixed::UNIT;
use technicals::fixed::VALUE_MAX;
use technicals::macd::MacdState;
use technicals::macd::MacdValue;
use technicals::psar::PsarState;
use technicals::psar::PsarValue;
use technicals::rsi::RsiState;
use technicals::supertrend::SuperTrendState;
use technicals::supertrend::SuperTrendValue;
use technicals::supertrend::Trend;

const CLOSES: [i64; 16] = [
    44_340_000, 44_090_000, 44_150_000, 43_610_000, 44_330_000, 44_830_000, 45_100_000,
    45_420_000, 45_840_000, 46_080_000, 45_890_000, 46_030_000, 45_610_000, 46_280_000,
    46_280_000, 46_000_000,
];

fn highs() -> Vec<i64> {
    CLOSES.iter().map(|c| c + 500_000).collect()
}

fn lows() -> Vec<i64> {
    CLOSES.iter().map(|c| c - 400_000).collect()
}

fn next_bar() -> Bar {
    Bar::new(46_200_000, 46_900_000, 45_900_000, 46_500_000, 2_000_000_000, 17)
}

#[test]
fn ema_over_a_series() {
    assert_eq!(ema_over(&[], 5), 0);
    assert_eq!(ema_over(&[7], 5), 7);
    assert_eq!(ema_over(&[100, 130], 5), 110);
    assert_eq!(ema_over(&CLOSES, 5), 46_017_724);
}

#[test]
fn ema_warm_up_preview_and_advance() {
    let mut state = EmaState::warm_up(&CLOSES, 5);
    assert_eq!(state, EmaState { length: 5, value: 46_017_724, initialized: true });
    assert_eq!(state.preview(&next_bar()), Some(46_178_482));
    assert_eq!(state.value, 46_017_724);
    state.advance(&next_bar());
    assert_eq!(state.value, 46_178_482);
}

#[test]
fn ema_needs_more_bars_than_its_lookback() {
    assert!(!EmaState::warm_up(&CLOSES[..5], 5).initialized);
    assert!(EmaState::warm_up(&CLOSES[..6], 5).initialized);
    assert!(!EmaState::warm_up(&CLOSES, 0).initialized);
    assert!(!EmaState::warm_up(&[], 3).initialized);
    let mut idle = EmaState::warm_up(&CLOSES[..5], 5);
    assert_eq!(idle.preview(&next_bar()), None);
    idle.advance(&next_bar());
    assert_eq!(idle, EmaState { length: 5, value: 0, initialized: false });
}

#[test]
fn rsi_warm_up_preview_and_advance() {
    let state = RsiState::warm_up(&CLOSES, 14);
    assert_eq!(
        state,
        RsiState {
            length: 14,
            avg_gain: 221_530,
            avg_loss: 112_857,
            prev_close: 46_000_000,
            initialized: true
        }
    );
    assert_eq!(state.current(), 66_249_585);
    let mut five = RsiState::warm_up(&CLOSES, 5);
    assert_eq!(five.preview(&next_bar()), Some(69_876_589));
    five.advance(&next_bar());
    assert_eq!(five.current(), 69_876_589);
    assert_eq!(five.prev_close, 46_500_000);
}

#[test]
fn rsi_readiness() {
    assert!(!RsiState::warm_up(&CLOSES[..14], 14).initialized);
    assert!(RsiState::warm_up(&CLOSES[..15], 14).initialized);
    assert!(!RsiState::warm_up(&CLOSES, 0).initialized);
    assert_eq!(RsiState::warm_up(&CLOSES[..14], 14).preview(&next_bar()), None);
}

#[test]
fn rsi_is_one_hundred_without_losses_and_zero_without_gains() {
    let rising: Vec<i64> = (0..10).map(|i| (100 + i) * UNIT).collect();
    assert_eq!(RsiState::warm_up(&rising, 4).current(), HUNDRED);
    let falling: Vec<i64> = (0..10).map(|i| (100 - i) * UNIT).collect();
    assert_eq!(RsiState::warm_up(&falling, 4).current(), 0);
    let flat = vec![100 * UNIT; 10];
    assert_eq!(RsiState::warm_up(&flat, 4).current(), HUNDRED);
}

#[test]
fn rsi_stays_within_bounds_on_wild_input() {
    let wild: Vec<i64> =
        (0..40).map(|i| if i % 2 == 0 { VALUE_MAX } else { -VALUE_MAX }).collect();
    let mut state = RsiState::warm_up(&wild, 3);
    for i in 0..20 {
        let close = if i % 3 == 0 { 999_999_999_999_999 } else { -5 };
        let bar = Bar::new(0, 0, 0, close, 0, 0);
        let v = state.preview(&bar).unwrap();
        assert!(0 <= v && v <= HUNDRED);
        state.advance(&bar);
    }
}

#[test]
fn atr_warm_up_preview_and_advance() {
    let mut state = AtrState::warm_up(&highs(), &lows(), &CLOSES, 5);
    assert_eq!(
        state,
        AtrState { length: 5, value: 945_276, prev_close: 46_000_000, initialized: true }
    );
    assert_eq!(state.preview(&next_bar()), Some(956_220));
    state.advance(&next_bar());
    assert_eq!(state.value, 956_220);
    assert_eq!(state.prev_close, 46_500_000);
    assert!(!AtrState::warm_up(&highs()[..5], &lows()[..5], &CLOSES[..5], 5).initialized);
}

#[test]
fn atr_of_a_flat_series_is_zero() {
    let flat = vec![100 * UNIT; 12];
    let state = AtrState::warm_up(&flat, &flat, &flat, 5);
    assert!(state.initialized);
    assert_eq!(state.value, 0);
    assert_eq!(state.preview(&Bar::new(0, 100 * UNIT, 100 * UNIT, 100 * UNIT, 0, 0)), Some(0));
}

#[test]
fn macd_warm_up_preview_and_advance() {
    let mut state = MacdState::warm_up(&CLOSES, 3, 6, 4);
    assert_eq!(
        state,
        MacdState {
            fast: 3,
            slow: 6,
            signal: 4,
            ema_fast: 46_076_339,
            ema_slow: 45_971_137,
            signal_val: 164_521,
            initialized: true
        }
    );
    assert_eq!(
        state.current(),
        MacdValue { macd: 105_202, signal: 164_521, histogram: 105_202 - 164_521 }
    );
    let want = MacdValue { macd: 165_929, signal: 165_084, histogram: 845 };
    assert_eq!(state.preview(&next_bar()), Some(want));
    state.advance(&next_bar());
    assert_eq!(state.current(), want);
}

#[test]
fn macd_needs_more_bars_than_slow_and_signal_together() {
    assert!(!MacdState::warm_up(&CLOSES[..10], 3, 6, 4).initialized);
    assert!(MacdState::warm_up(&CLOSES[..11], 3, 6, 4).initialized);
    assert!(!MacdState::warm_up(&CLOSES, 0, 6, 4).initialized);
    assert!(!MacdState::warm_up(&CLOSES, 3, 0, 4).initialized);
    assert!(!MacdState::warm_up(&CLOSES, 3, 6, 0).initialized);
    assert!(!MacdState::warm_up(&CLOSES, 3, usize::MAX, usize::MAX).initialized);
}

#[test]
fn directional_movement() {
    assert_eq!(moves_of(12, 9, 10, 8), (2, 0));
    assert_eq!(moves_of(10, 5, 10, 8), (0, 3));
    assert_eq!(moves_of(12, 6, 10, 8), (0, 0));
    assert_eq!(moves_of(9, 9, 10, 8), (0, 0));
    let (plus, minus) = directional_moves_of(&[10, 12, 12, 11], &[8, 9, 5, 7]);
    assert_eq!(plus, vec![2, 0, 0]);
    assert_eq!(minus, vec![0, 4, 0]);
    assert_eq!(directional_index_of(25, 100), 25 * UNIT as i128);
    assert_eq!(directional_index_of(25, 0), 0);
    assert_eq!(dx_of(100, 30, 10), 50 * UNIT);
    assert_eq!(dx_of(100, 0, 0), 0);
    assert_eq!(dx_of(0, 30, 10), 0);
}

#[test]
fn adx_warm_up_preview_and_advance() {
    let mut state = AdxState::warm_up(&highs(), &lows(), &CLOSES, 3);
    assert_eq!(
        state,
        AdxState {
            length: 3,
            tr_smooth: 942_304,
            pdm_smooth: 136_016,
            ndm_smooth: 145_184,
            dx_smooth: 31_452_891,
            prev_high: 46_500_000,
            prev_low: 45_600_000,
            prev_close: 46_000_000,
            initialized: true
        }
    );
    let want = AdxValue { adx: 34_187_775, plus_di: 23_297_099, minus_di: 10_066_081 };
    assert_eq!(state.preview(&next_bar()), Some(want));
    state.advance(&next_bar());
    assert_eq!(state.current(), want);
}

#[test]
fn adx_needs_more_bars_than_twice_its_lookback() {
    assert!(!AdxState::warm_up(&highs()[..6], &lows()[..6], &CLOSES[..6], 3).initialized);
    assert!(AdxState::warm_up(&highs()[..7], &lows()[..7], &CLOSES[..7], 3).initialized);
    assert!(!AdxState::warm_up(&highs(), &lows(), &CLOSES, 0).initialized);
    assert!(!AdxState::warm_up(&highs(), &lows(), &CLOSES, usize::MAX).initialized);
}

#[test]
fn adx_with_no_range_reports_zero() {
    let flat = vec![50 * UNIT; 10];
    let state = AdxState::warm_up(&flat, &flat, &flat, 3);
    assert!(state.initialized);
    assert_eq!(state.current(), AdxValue { adx: 0, plus_di: 0, minus_di: 0 });
}

#[test]
fn supertrend_warm_up_preview_and_advance() {
    let mut state = SuperTrendState::warm_up(&highs(), &lows(), &CLOSES, 3, 1_500_000);
    assert_eq!(
        state,
        SuperTrendState {
            length: 3,
            multiplier: 1_500_000,
            atr: 942_304,
            upper: 46_893_579,
            lower: 44_884_816,
            trend: Trend::Up,
            prev_close: 46_000_000,
            initialized: true
        }
    );
    let want = SuperTrendValue {
        trend: Trend::Up,
        upper: 46_893_579,
        lower: 44_957_696,
        line: 44_957_696,
    };
    assert_eq!(state.preview(&next_bar()), Some(want));
    state.advance(&next_bar());
    assert_eq!(state.current(), want);
    assert_eq!(state.atr, 961_536);
    let (h, l) = (highs(), lows());
    assert!(!SuperTrendState::warm_up(&h[..3], &l[..3], &CLOSES[..3], 3, UNIT).initialized);
    assert!(SuperTrendState::warm_up(&h[..4], &l[..4], &CLOSES[..4], 3, UNIT).initialized);
}

#[test]
fn supertrend_flips_only_when_the_close_crosses_and_ratchets_meanwhile() {
    let mut state = SuperTrendState {
        length: 2,
        multiplier: UNIT,
        atr: 2 * UNIT,
        upper: (110 * UNIT) as i128,
        lower: (95 * UNIT) as i128,
        trend: Trend::Up,
        prev_close: 100 * UNIT,
        initialized: true,
    };
    // Rising bars: the lower band only rises, the trend holds.
    let mut last_lower = state.lower;
    for i in 1..6 {
        let mid = (100 + 2 * i) * UNIT;
        state = state.step_by(mid + UNIT, mid - UNIT, mid);
        assert_eq!(state.trend, Trend::Up);
        assert!(state.lower >= last_lower);
        last_lower = state.lower;
    }
    // A bar that sags but closes above the lower band: band holds, trend holds.
    let held = state.step_by(last_lower as i64 + 2 * UNIT, last_lower as i64 + UNIT / 2,
        last_lower as i64 + UNIT);
    assert_eq!(held.trend, Trend::Up);
    assert_eq!(held.lower, last_lower);
    // A close below the lower band turns the trend down on that very bar.
    let crossed = held.step_by(last_lower as i64, last_lower as i64 - 3 * UNIT,
        last_lower as i64 - 2 * UNIT);
    assert_eq!(crossed.trend, Trend::Down);
    assert!((crossed.prev_close as i128) < crossed.lower);
    assert_eq!(crossed.current().line, crossed.upper);
    // Falling further: the upper band only falls while the trend stays down.
    let mut last_upper = crossed.upper;
    let mut down = crossed;
    for i in 1..5 {
        let mid = last_lower as i64 - (2 + 2 * i) * UNIT;
        down = down.step_by(mid + UNIT, mid - UNIT, mid);
        assert_eq!(down.trend, Trend::Down);
        assert!(down.upper <= last_upper);
        last_upper = down.upper;
    }
    // A close above the upper band turns it up again.
    let top = last_upper as i64;
    let up = down.step_by(top + 3 * UNIT, top, top + 2 * UNIT);
    assert_eq!(up.trend, Trend::Up);
}

#[test]
fn psar_follows_the_standard_schedule() {
    let h = highs();
    let l = lows();
    let want: [(i64, i64, i64, bool); 15] = [
        (44_840_000, 43_690_000, 20_000, false),
        (44_817_000, 43_690_000, 20_000, false),
        (44_794_460, 43_210_000, 40_000, false),
        (43_210_000, 44_830_000, 20_000, true),
        (43_242_400, 45_330_000, 40_000, true),
        (43_325_904, 45_600_000, 60_000, true),
        (43_462_349, 45_920_000, 80_000, true),
        (43_658_961, 46_340_000, 100_000, true),
        (43_927_064, 46_580_000, 120_000, true),
        (44_245_416, 46_580_000, 120_000, true),
        (44_525_566, 46_580_000, 120_000, true),
        (44_772_098, 46_580_000, 120_000, true),
        (44_989_046, 46_780_000, 140_000, true),
        (45_239_779, 46_780_000, 140_000, true),
        (45_455_409, 46_780_000, 140_000, true),
    ];
    for n in 2..=16 {
        let state = PsarState::warm_up(&h[..n], &l[..n], &CLOSES[..n], 20_000, 20_000, 200_000);
        assert!(state.initialized);
        assert_eq!((state.sar, state.ep, state.af, state.is_long), want[n - 2], "after {} bars", n);
    }
    let state = PsarState::warm_up(&h, &l, &CLOSES, 20_000, 20_000, 200_000);
    assert_eq!(state.preview(&next_bar()), Some(PsarValue { sar: 45_600_000, is_long: true }));
    let next = state.step(&next_bar());
    assert_eq!((next.sar, next.ep, next.af, next.is_long), (45_600_000, 46_900_000, 160_000, true));
}

#[test]
fn psar_readiness_and_factor_cap() {
    let h = highs();
    let l = lows();
    let one = PsarState::warm_up(&h[..1], &l[..1], &CLOSES[..1], 20_000, 20_000, 200_000);
    assert!(!one.initialized);
    assert!(!PsarState::warm_up(&h, &l, &CLOSES, -1, 20_000, 200_000).initialized);
    assert!(!PsarState::warm_up(&h, &l, &CLOSES, 300_000, 20_000, 200_000).initialized);
    assert!(!PsarState::warm_up(&h, &l, &CLOSES, 20_000, 20_000, UNIT + 1).initialized);
    assert!(!PsarState::warm_up(&h, &l, &CLOSES, 20_000, -5, 200_000).initialized);
    assert_eq!(one.preview(&next_bar()), None);
    // The factor never exceeds the maximum.
    let mut state = PsarState {
        sar: 90 * UNIT,
        ep: 100 * UNIT,
        af: 190_000,
        is_long: true,
        start_af: 20_000,
        max_af: 200_000,
        inc_af: 20_000,
        prev_high: 100 * UNIT,
        prev_low: 98 * UNIT,
        initialized: true,
    };
    state = state.step_by(101 * UNIT, 99 * UNIT);
    assert_eq!(state.af, 200_000);
    state = state.step_by(102 * UNIT, 100 * UNIT);
    assert_eq!(state.af, 200_000);
    assert_eq!(PsarState::default().initialized, false);
}
