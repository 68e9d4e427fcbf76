use technicals::AdSettings;
use technicals::AroonSettings;
use technicals::DonchianSettings;
use technicals::IchimokuSettings;
use technicals::indicator::IndicatorKey;
use technicals::indicator::Reading;
use technicals::IndicatorSettings;
use technicals::KeltnerSettings;
use technicals::ObvSettings;
use technicals::PivotSettings;
use technicals::PsarSettings;
use technicals::PsarState;
use technicals::RocSettings;
use technicals::StochRsiSettings;
use technicals::TechnicalsCalculator;
use technicals::TsiSettings;
use technicals::VolumeProfileSettings;
use technicals::VwapSettings;

#[test]
fn parameter_sets_without_a_family_default_are_zero() {
    assert_eq!(
        StochRsiSettings::default(),
        StochRsiSettings { length: 0, stoch_length: 0, k: 0, d: 0 }
    );
    assert_eq!(AroonSettings::default(), AroonSettings { length: 0 });
    assert_eq!(
        IchimokuSettings::default(),
        IchimokuSettings { conversion: 0, base: 0, span_b: 0, displacement: 0 }
    );
    assert_eq!(
        KeltnerSettings::default(),
        KeltnerSettings { length: 0, multiplier: 0, atr_length: 0 }
    );
    assert_eq!(DonchianSettings::default(), DonchianSettings { length: 0 });
    assert_eq!(ObvSettings::default(), ObvSettings {});
    assert_eq!(VolumeProfileSettings::default(), VolumeProfileSettings { rows: 0 });
    assert_eq!(AdSettings::default(), AdSettings {});
    assert_eq!(RocSettings::default(), RocSettings { length: 0 });
    assert_eq!(TsiSettings::default(), TsiSettings { long: 0, short: 0, signal: 0 });
    assert_eq!(PsarSettings::default(), PsarSettings { start: 0, increment: 0, max: 0 });
    assert_eq!(PivotSettings::default().type_, "");
    assert_eq!(VwapSettings::default().anchor, "");
}

#[test]
fn the_empty_configuration_asks_for_nothing() {
    let s = IndicatorSettings::default();
    assert!(s.ema.is_empty() && s.sma.is_empty() && s.wma.is_empty() && s.vwma.is_empty());
    assert!(s.hma.is_empty() && s.rsi.is_empty() && s.macd.is_empty() && s.bb.is_empty());
    assert!(s.atr.is_empty() && s.stoch.is_empty() && s.cci.is_empty() && s.adx.is_empty());
    assert!(s.supertrend.is_empty() && s.mom.is_empty() && s.wr.is_empty());
    assert!(s.volma.is_empty() && s.pivots.is_empty() && s.psar.is_empty());
    assert!(s.chop.is_empty() && s.vwap.is_empty() && s.mfi.is_empty());
    assert!(s.keys().is_empty());
}

#[test]
fn each_anchor_configures_an_average_and_pivot_sets_configure_none() {
    let mut s = IndicatorSettings::default();
    s.pivots.push(PivotSettings { type_: String::from("classic") });
    s.vwap.push(VwapSettings { anchor: String::from("session") });
    s.vwap.push(VwapSettings { anchor: String::from("week") });
    assert_eq!(s.keys(), vec![IndicatorKey::Vwap { slot: 0 }, IndicatorKey::Vwap { slot: 1 }]);
    let mut calc = TechnicalsCalculator::new();
    calc.initialize(&[5, 6, 7], &[6, 7, 8], &[4, 5, 6], &[1, 1, 1], &[0, 1, 2], s);
    assert_eq!(calc.len(), 2);
    assert_eq!(calc.history_len(), 3);
    // (5 + 6 + 7) / 3 bars of volume 1 each, then (9 + 9 + 9) / 3 of volume 3.
    let out = calc.update(0, 9, 9, 9, 3, 0);
    assert_eq!(out.volatility.len(), 2);
    assert_eq!(out.volatility[0].reading, Reading::Single((5 + 6 + 7 + 27) / 6));
    assert_eq!(out.volatility[1].reading, out.volatility[0].reading);
    let labels: Vec<String> =
        out.volatility.iter().map(|e| e.key.label(&calc.settings().vwap)).collect();
    assert_eq!(labels, vec!["VWAP_session", "VWAP_week"]);
    // A new period of one anchor starts its average anew, and no other.
    calc.restart_anchor(1);
    let fresh = calc.update(0, 9, 9, 9, 3, 0);
    assert_eq!(fresh.volatility[0].reading, out.volatility[0].reading);
    assert_eq!(fresh.volatility[1].reading, Reading::Single(9));
    calc.restart_anchor(7);
    assert_eq!(calc.update(0, 9, 9, 9, 3, 0), fresh);
    calc.shift(0, 9, 9, 9, 3, 0);
    calc.restart_anchor(0);
    let later = calc.update(0, 12, 12, 12, 1, 0);
    assert_eq!(later.volatility[0].reading, Reading::Single(12));
    assert_eq!(later.volatility[1].reading, Reading::Single((27 + 12) / 4));
    assert_eq!(calc.history_len(), 4);
}

#[test]
fn an_unseeded_stop_has_no_factors() {
    let state = PsarState::default();
    assert_eq!((state.start_af, state.inc_af, state.max_af), (0, 0, 0));
    assert!(!state.initialized);
}
