use technicals::bar::Bar;
use technicals::bar::Source;
use technicals::bollinger::BbState;
use technicals::bollinger::BollingerValue;
use technicals::cci::CciState;
use technicals::chop::ChopState;
use technicals::chop::ChopValue;
use technicals::fixed::HUNDRED;
use technicals::fixed::UNIT;
use technicals::history::HistoryBuffer;
use technicals::mfi::flows_of;
use technicals::mfi::MfiState;
use technicals::momentum::MomState;
use technicals::momentum::WrState;
use technicals::pivots::PivotKind;
use technicals::pivots::PivotState;
use technicals::sma::SmaState;
use technicals::stochastic::extremes_of;
use technicals::stochastic::stoch_k_of;
use technicals::stochastic::StochState;
use technicals::stochastic::StochValue;
use technicals::vwap::VwapState;
use technicals::vwap::VWAP_ROOM;
use technicals::vwma::VwmaState;
use technicals::window::extremes_with;
use technicals::window::weighted_sum_last;
use technicals::wma::weighted_mean_last;
use technicals::wma::weighted_mean_with;
use technicals::wma::HmaState;
use technicals::wma::WmaState;

const CLOSES: [i64; 16] = [
    44_340_000, 44_090_000, 44_150_000, 43_610_000, 44_330_000, 44_830_000, 45_100_000,
    45_420_000, 45_840_000, 46_080_000, 45_890_000, 46_030_000, 45_610_000, 46_280_000,
    46_280_000, 46_000_000,
];

fn highs() -> Vec<i64> {
    CLOSES.iter().map(|c| c + 500_000).collect()
}

fn lows() -> Vec<i64> {
    CLOSES.iter().map(|c| c - 400_000).collect()
}

fn volumes() -> Vec<i64> {
    (0..16).map(|i| (1000 + 10 * i) * UNIT).collect()
}

fn history(capacity: usize) -> HistoryBuffer {
    let mut buffer = HistoryBuffer::new(capacity);
    let (h, l, v) = (highs(), lows(), volumes());
    for i in 0..16 {
        buffer.push(Bar::new(0, h[i], l[i], CLOSES[i], v[i], i as i64));
    }
    buffer
}

fn next_bar() -> Bar {
    Bar::new(46_200_000, 46_900_000, 45_900_000, 46_500_000, 2_000_000_000, 17)
}

#[test]
fn sma_warm_up_preview_and_step() {
    let buffer = history(200);
    let state = SmaState::warm_up(&buffer, Source::Close, 5);
    assert_eq!(
        state,
        SmaState { source: Source::Close, length: 5, sum: 230_200_000, initialized: true }
    );
    assert_eq!(state.current(), 46_040_000);
    assert_eq!(state.preview(&buffer, &next_bar()), Some(46_134_000));
    let next = state.step(&buffer, &next_bar());
    assert_eq!(next.sum, 230_200_000 - 46_030_000 + 46_500_000);
}

#[test]
fn volume_average_reads_the_volumes() {
    let buffer = history(200);
    let state = SmaState::warm_up(&buffer, Source::Volume, 5);
    assert_eq!(state.sum, 5_650_000_000);
    assert_eq!(state.preview(&buffer, &next_bar()), Some(1_308_000_000));
}

#[test]
fn a_window_must_fit_the_kept_history() {
    let buffer = history(200);
    assert!(SmaState::warm_up(&buffer, Source::Close, 16).initialized);
    assert!(!SmaState::warm_up(&buffer, Source::Close, 17).initialized);
    assert!(!SmaState::warm_up(&buffer, Source::Close, 0).initialized);
    let small = history(8);
    assert!(SmaState::warm_up(&small, Source::Close, 8).initialized);
    assert!(!SmaState::warm_up(&small, Source::Close, 9).initialized);
    assert_eq!(SmaState::warm_up(&small, Source::Close, 9).preview(&small, &next_bar()), None);
    assert!(!WmaState::warm_up(&small, 9).initialized);
    assert!(!BbState::warm_up(&small, 9, 2 * UNIT).initialized);
    assert!(!VwmaState::warm_up(&small, 9).initialized);
    assert!(!WrState::warm_up(&small, 9).initialized);
}

#[test]
fn a_window_as_long_as_the_capacity_rolls_exactly() {
    let small = history(5);
    let state = SmaState::warm_up(&small, Source::Close, 5);
    assert_eq!(state.sum, 230_200_000);
    assert_eq!(state.preview(&small, &next_bar()), Some(46_134_000));
}

#[test]
fn weighted_sums_and_means() {
    let buffer = history(200);
    assert_eq!(weighted_sum_last(&buffer, 0), 0);
    assert_eq!(
        weighted_sum_last(&buffer, 3),
        46_280_000 + 2 * 46_280_000 + 3 * 46_000_000
    );
    assert_eq!(weighted_mean_last(&buffer, 4), 46_101_000);
    assert_eq!(weighted_mean_with(&buffer, 4, 46_500_000), 46_284_000);
    assert_eq!(weighted_mean_with(&buffer, 1, 46_500_000), 46_500_000);
}

#[test]
fn wma_warm_up_preview_and_step() {
    let buffer = history(200);
    let state = WmaState::warm_up(&buffer, 4);
    assert_eq!(state, WmaState { length: 4, value: 46_101_000, initialized: true });
    assert_eq!(state.preview(&buffer, &next_bar()), Some(46_284_000));
    assert_eq!(state.step(&buffer, &next_bar()).value, 46_284_000);
}

#[test]
fn hma_warm_up_preview_and_readiness() {
    let buffer = history(200);
    let state = HmaState::warm_up(&buffer, 16, 6);
    assert_eq!(
        state,
        HmaState { length: 6, wma_half: 46_140_000, wma_full: 46_061_904, initialized: true }
    );
    assert_eq!(state.preview(&buffer, &next_bar()), Some(46_392_856));
    let next = state.step(&buffer, &next_bar());
    assert_eq!((next.wma_half, next.wma_full), (46_296_666, 46_200_476));
    // The lookback and its square root more: 9 + 3 bars.
    assert!(!HmaState::warm_up(&buffer, 11, 9).initialized);
    assert!(HmaState::warm_up(&buffer, 12, 9).initialized);
    assert!(!HmaState::warm_up(&buffer, 16, 1).initialized);
}

#[test]
fn vwma_warm_up_preview_and_step() {
    let buffer = history(200);
    let state = VwmaState::warm_up(&buffer, 5);
    assert_eq!(
        state,
        VwmaState {
            length: 5,
            sum_pv: 260_132_100_000_000_000,
            sum_vol: 5_650_000_000,
            initialized: true
        }
    );
    assert_eq!(state.current(), 46_041_079);
    assert_eq!(state.preview(&buffer, &next_bar()), Some(46_183_302));
    let next = state.step(&buffer, &next_bar());
    assert_eq!((next.sum_pv, next.sum_vol), (302_038_800_000_000_000, 6_540_000_000));
}

#[test]
fn vwma_without_volume_is_zero() {
    let mut buffer = HistoryBuffer::new(10);
    for i in 0..4 {
        buffer.push(Bar::new(0, 10 + i, 8 + i, 9 + i, 0, 0));
    }
    let state = VwmaState::warm_up(&buffer, 3);
    assert_eq!(state.current(), 0);
    assert_eq!(state.preview(&buffer, &Bar::new(0, 20, 18, 19, 0, 0)), Some(0));
}

#[test]
fn bollinger_warm_up_preview_and_step() {
    let buffer = history(200);
    let state = BbState::warm_up(&buffer, 5, 2 * UNIT);
    assert!(state.initialized);
    assert_eq!(state.sum, 230_200_000);
    assert_eq!(
        state.current(46_000_000),
        BollingerValue {
            upper: 46_531_364,
            lower: 45_548_636,
            basis: 46_040_000,
            percent_b: 459_296
        }
    );
    assert_eq!(
        state.preview(&buffer, &next_bar()),
        Some(BollingerValue {
            upper: 46_746_614,
            lower: 45_521_386,
            basis: 46_134_000,
            percent_b: 798_719
        })
    );
}

#[test]
fn bollinger_on_a_flat_window_collapses_to_the_close() {
    let mut buffer = HistoryBuffer::new(50);
    for _ in 0..30 {
        buffer.push(Bar::new(0, 105 * UNIT, 95 * UNIT, 100 * UNIT, 1000 * UNIT, 0));
    }
    let state = BbState::warm_up(&buffer, 20, 2 * UNIT);
    let flat = BollingerValue {
        upper: 100 * UNIT as i128,
        lower: 100 * UNIT as i128,
        basis: 100 * UNIT,
        percent_b: (UNIT / 2) as i128,
    };
    assert_eq!(state.current(100 * UNIT), flat);
    assert_eq!(
        state.preview(&buffer, &Bar::new(0, 105 * UNIT, 95 * UNIT, 100 * UNIT, 0, 0)),
        Some(flat)
    );
}

#[test]
fn bollinger_with_a_negative_multiplier_swaps_the_bands() {
    let buffer = history(200);
    let state = BbState::warm_up(&buffer, 5, -2 * UNIT);
    let v = state.current(46_000_000);
    assert_eq!(v.basis, 46_040_000);
    assert_eq!(v.upper, 45_548_636);
    assert_eq!(v.lower, 46_531_364);
}

#[test]
fn stochastic_k_of_a_close() {
    assert_eq!(stoch_k_of(15, 20, 10), 50 * UNIT as i128);
    assert_eq!(stoch_k_of(10, 20, 10), 0);
    assert_eq!(stoch_k_of(20, 20, 10), HUNDRED as i128);
    assert_eq!(stoch_k_of(12, 12, 12), 50 * UNIT as i128);
    assert_eq!(stoch_k_of(25, 20, 10), 150 * UNIT as i128);
    assert_eq!(extremes_of(&[3, 9, 4], &[1, 0, 2], 0, 3), (9, 0));
    assert_eq!(extremes_of(&[3, 9, 4], &[1, 0, 2], 2, 3), (4, 2));
}

#[test]
fn stochastic_warm_up_preview_and_step() {
    let buffer = history(200);
    let state = StochState::warm_up(&highs(), &lows(), &CLOSES, 200, 5, 3, 3);
    assert!(state.initialized);
    assert_eq!(state.k_buffer, vec![68_152_866, 68_152_866, 50_318_471]);
    assert_eq!(state.current(), StochValue { k: 50_318_471, d: 62_208_067 });
    assert_eq!(
        state.preview(&buffer, &next_bar()),
        Some(StochValue { k: 76_331_360, d: 64_934_232 })
    );
    let next = state.step(&buffer, &next_bar());
    assert_eq!(next.k_buffer, vec![68_152_866, 50_318_471, 76_331_360]);
}

#[test]
fn stochastic_readiness_and_short_buffers() {
    let (h, l) = (highs(), lows());
    // 14 + 3 bars are needed.
    assert!(!StochState::warm_up(&h, &l, &CLOSES, 200, 14, 3, 3).initialized);
    assert!(StochState::warm_up(&h, &l, &CLOSES, 200, 13, 3, 3).initialized);
    assert!(!StochState::warm_up(&h, &l, &CLOSES, 200, 0, 3, 3).initialized);
    assert!(!StochState::warm_up(&h, &l, &CLOSES, 200, 5, 0, 3).initialized);
    assert!(!StochState::warm_up(&h, &l, &CLOSES, 4, 5, 3, 3).initialized);
    // Fewer windows than %D asks for: %D is the mean of those there are.
    let state = StochState::warm_up(&h, &l, &CLOSES, 200, 14, 10, 2);
    assert_eq!(state.k_buffer, vec![85_994_397, 85_994_397, 78_151_260]);
    assert_eq!(state.current().d, (85_994_397 + 85_994_397 + 78_151_260) / 3);
    let buffer = history(200);
    let next = state.step(&buffer, &next_bar());
    assert_eq!(next.k_buffer.len(), 4);
}

#[test]
fn stochastic_stays_within_bounds_on_ordered_bars() {
    let mut buffer = history(200);
    let mut state = StochState::warm_up(&highs(), &lows(), &CLOSES, 200, 5, 3, 3);
    let mut seed: i64 = 12345;
    for _ in 0..60 {
        seed = (seed * 1_103_515_245 + 12_345) % 2_147_483_648;
        let low = 40 * UNIT + seed % (10 * UNIT);
        let span = 1 + seed % (3 * UNIT);
        let close = low + (seed / 7) % (span + 1);
        let bar = Bar::new(0, low + span, low, close, UNIT, 0);
        let v = state.preview(&buffer, &bar).unwrap();
        assert!(0 <= v.k && v.k <= HUNDRED as i128);
        assert!(0 <= v.d && v.d <= HUNDRED as i128);
        state = state.step(&buffer, &bar);
        buffer.push(bar);
    }
}

#[test]
fn cci_warm_up_preview_and_step() {
    let state = CciState::warm_up(&highs(), &lows(), &CLOSES, 5);
    assert!(state.initialized);
    assert_eq!(state.tp_buffer.len(), 5);
    assert_eq!(state.current(), -13_888_889);
    assert_eq!(state.preview(&next_bar()), Some(77_130_528));
    let next = state.step(&next_bar());
    assert_eq!(next.current(), 77_130_528);
    assert_eq!(next.tp_buffer[4], (46_900_000 + 45_900_000 + 46_500_000) / 3);
    assert!(!CciState::warm_up(&highs(), &lows(), &CLOSES, 17).initialized);
    assert!(CciState::warm_up(&highs(), &lows(), &CLOSES, 16).initialized);
    assert!(!CciState::warm_up(&highs(), &lows(), &CLOSES, 0).initialized);
}

#[test]
fn cci_without_deviation_is_zero() {
    let flat = vec![100 * UNIT; 10];
    let state = CciState::warm_up(&flat, &flat, &flat, 5);
    assert_eq!(state.current(), 0);
    assert_eq!(state.preview(&Bar::new(0, 100 * UNIT, 100 * UNIT, 100 * UNIT, 0, 0)), Some(0));
}

#[test]
fn momentum_reads_the_close_before_the_lookback() {
    let buffer = history(200);
    let state = MomState::warm_up(&buffer, 3);
    assert!(state.initialized);
    assert_eq!(state.preview(&buffer, &next_bar()), Some(890_000));
    assert_eq!(MomState::warm_up(&buffer, 0).preview(&buffer, &next_bar()), Some(500_000));
    assert!(!MomState::warm_up(&buffer, 16).initialized);
    assert!(MomState::warm_up(&buffer, 15).initialized);
    assert_eq!(MomState::warm_up(&buffer, 16).preview(&buffer, &next_bar()), None);
    // The kept history decides, whatever came before it.
    let small = history(4);
    assert!(!MomState::warm_up(&small, 4).initialized);
    assert_eq!(MomState::warm_up(&small, 4).preview(&small, &next_bar()), None);
    assert!(MomState::warm_up(&small, 3).initialized);
    assert_eq!(MomState::warm_up(&small, 3).preview(&small, &next_bar()), Some(890_000));
}

#[test]
fn williams_r_of_a_bar() {
    let buffer = history(200);
    assert_eq!(extremes_with(&buffer, 5, 46_900_000, 45_900_000), (46_900_000, 45_210_000));
    let state = WrState::warm_up(&buffer, 5);
    assert!(state.initialized);
    assert_eq!(state.preview(&buffer, &next_bar()), Some(-23_668_640));
    // An empty range gives zero.
    let mut flat = HistoryBuffer::new(10);
    for _ in 0..5 {
        flat.push(Bar::new(0, 7, 7, 7, 0, 0));
    }
    assert_eq!(WrState::warm_up(&flat, 3).preview(&flat, &Bar::new(0, 7, 7, 7, 0, 0)), Some(0));
    // Close on the high is zero, close on the low is minus one hundred.
    assert_eq!(WrState::warm_up(&flat, 0).preview(&flat, &Bar::new(0, 9, 5, 9, 0, 0)), Some(0));
    assert_eq!(
        WrState::warm_up(&flat, 0).preview(&flat, &Bar::new(0, 9, 5, 5, 0, 0)),
        Some(-(HUNDRED as i128))
    );
}

#[test]
fn choppiness_quantities() {
    let state = ChopState::warm_up(&highs(), &lows(), &CLOSES, 5);
    assert!(state.initialized);
    assert_eq!(state.current(), ChopValue { tr_sum: 4_770_000, range: 1_570_000 });
    assert_eq!(state.preview(&next_bar()), Some(ChopValue { tr_sum: 4_870_000, range: 1_690_000 }));
    let next = state.step(&next_bar());
    assert_eq!(next.prev_close, 46_500_000);
    assert_eq!(next.highs.len(), 5);
    assert!(!ChopState::warm_up(&highs(), &lows(), &CLOSES, 16).initialized);
    assert!(ChopState::warm_up(&highs(), &lows(), &CLOSES, 15).initialized);
    assert!(!ChopState::warm_up(&highs(), &lows(), &CLOSES, 0).initialized);
    let flat = vec![5 * UNIT; 8];
    assert_eq!(
        ChopState::warm_up(&flat, &flat, &flat, 3).current(),
        ChopValue { tr_sum: 0, range: 0 }
    );
}

#[test]
fn money_flow_of_a_bar() {
    assert_eq!(flows_of(12 * UNIT, 10 * UNIT, 3 * UNIT), (36 * UNIT as i128, 0));
    assert_eq!(flows_of(9 * UNIT, 10 * UNIT, 3 * UNIT), (0, 27 * UNIT as i128));
    assert_eq!(flows_of(10 * UNIT, 10 * UNIT, 3 * UNIT), (0, 0));
}

#[test]
fn mfi_warm_up_preview_and_step() {
    let state = MfiState::warm_up(&highs(), &lows(), &CLOSES, &volumes(), 5);
    assert!(state.initialized);
    assert_eq!((state.sum_p, state.sum_n), (103_464_365_920, 104_058_865_910));
    assert_eq!(state.current(), 49_856_764);
    assert_eq!(state.preview(&next_bar()), Some(58_252_815));
    let next = state.step(&next_bar());
    assert_eq!((next.sum_p, next.sum_n), (145_200_732_290, 104_058_865_910));
    assert!(!MfiState::warm_up(&highs(), &lows(), &CLOSES, &volumes(), 16).initialized);
    assert!(MfiState::warm_up(&highs(), &lows(), &CLOSES, &volumes(), 15).initialized);
    assert!(!MfiState::warm_up(&highs(), &lows(), &CLOSES, &volumes(), 0).initialized);
}

#[test]
fn mfi_is_one_hundred_without_negative_flow() {
    let rising: Vec<i64> = (0..10).map(|i| (100 + i) * UNIT).collect();
    let volume = vec![10 * UNIT; 10];
    let state = MfiState::warm_up(&rising, &rising, &rising, &volume, 4);
    assert_eq!(state.sum_n, 0);
    assert_eq!(state.current(), HUNDRED as i128);
    let falling: Vec<i64> = (0..10).map(|i| (100 - i) * UNIT).collect();
    assert_eq!(MfiState::warm_up(&falling, &falling, &falling, &volume, 4).current(), 0);
}

#[test]
fn vwap_accumulates_while_there_is_room() {
    let state = VwapState::new(2);
    assert_eq!(state, VwapState { slot: 2, cum_vol: 0, cum_pv: 0 });
    assert_eq!(state.current(), 0);
    assert_eq!(state.preview(&Bar::new(0, 12, 9, 9, 5, 1)), 10);
    let one = state.step(&Bar::new(0, 12, 9, 9, 5, 1));
    assert_eq!(one, VwapState { slot: 2, cum_vol: 5, cum_pv: 50 });
    let two = one.step(&Bar::new(0, 22, 19, 19, 15, 2));
    assert_eq!(two, VwapState { slot: 2, cum_vol: 20, cum_pv: 350 });
    assert_eq!(two.current(), 17);
    assert_eq!(two.step_by(22, 19, 19, 0), two);
    // Without room the state stands still and reports what it holds.
    let full = VwapState { slot: 0, cum_vol: 2, cum_pv: VWAP_ROOM + 1 };
    assert!(!full.room());
    assert_eq!(full.step(&Bar::new(0, 1, 1, 1, 1, 8)), full);
    assert_eq!(full.preview(&Bar::new(0, 1, 1, 1, 1, 8)), (VWAP_ROOM + 1) / 2);
}

#[test]
fn vwap_warm_up_runs_over_all_of_history() {
    let (h, l, v) = (highs(), lows(), volumes());
    let state = VwapState::warm_up(&h, &l, &CLOSES, &v, 1);
    let mut pv: i128 = 0;
    let mut vol: i128 = 0;
    for i in 0..16 {
        let tp = ((h[i] + l[i] + CLOSES[i]) / 3) as i128;
        pv += tp * v[i] as i128;
        vol += v[i] as i128;
    }
    assert_eq!(state, VwapState { slot: 1, cum_vol: vol, cum_pv: pv });
    assert_eq!(state.current(), pv / vol);
    assert_eq!(state.current(), 45_309_367);
    assert_eq!(VwapState::warm_up(&[], &[], &[], &[], 3), VwapState::new(3));
}

#[test]
fn classic_pivot_levels() {
    let levels =
        PivotState::from_prior(PivotKind::Classic, 95 * UNIT, 110 * UNIT, 90 * UNIT, 100 * UNIT);
    assert_eq!(
        levels,
        PivotState {
            p: 100 * UNIT,
            r1: 110 * UNIT,
            r2: 120 * UNIT,
            r3: 130 * UNIT,
            s1: 90 * UNIT,
            s2: 80 * UNIT,
            s3: 70 * UNIT,
            basis_h: 110 * UNIT,
            basis_l: 90 * UNIT,
            basis_c: 100 * UNIT,
            basis_o: 95 * UNIT,
            initialized: true
        }
    );
    let odd = PivotState::from_prior(PivotKind::Classic, 0, 10, 7, 9);
    assert_eq!((odd.p, odd.r1, odd.r2, odd.r3), (8, 9, 11, 12));
    assert_eq!((odd.s1, odd.s2, odd.s3), (6, 5, 3));
    let negative = PivotState::from_prior(PivotKind::Classic, 0, -1, -4, -2);
    assert_eq!(negative.p, -3);
    assert!(!PivotState::default().initialized);
}

#[test]
fn fibonacci_and_woodie_pivot_levels() {
    let fib = PivotState::from_prior(PivotKind::Fibonacci, 0, 110 * UNIT, 90 * UNIT, 100 * UNIT);
    assert_eq!(fib.p, 100 * UNIT);
    assert_eq!((fib.r1, fib.r2, fib.r3), (107_640_000, 112_360_000, 120 * UNIT));
    assert_eq!((fib.s1, fib.s2, fib.s3), (92_360_000, 87_640_000, 80 * UNIT));
    let woodie =
        PivotState::from_prior(PivotKind::Woodie, 104 * UNIT, 110 * UNIT, 90 * UNIT, 100 * UNIT);
    assert_eq!(woodie.p, 102 * UNIT);
    assert_eq!((woodie.r1, woodie.r2, woodie.r3), (114 * UNIT, 122 * UNIT, 134 * UNIT));
    assert_eq!((woodie.s1, woodie.s2, woodie.s3), (94 * UNIT, 82 * UNIT, 74 * UNIT));
    assert_eq!(woodie.basis_o, 104 * UNIT);
    assert_eq!(PivotKind::from_name(&String::from("woodie")), PivotKind::Woodie);
    assert_eq!(PivotKind::from_name(&String::from("fibonacci")), PivotKind::Fibonacci);
    assert_eq!(PivotKind::from_name(&String::from("classic")), PivotKind::Classic);
    assert_eq!(PivotKind::from_name(&String::from("")), PivotKind::Classic);
    assert_eq!(PivotKind::from_name(&String::from("Woodie")), PivotKind::Classic);
}
