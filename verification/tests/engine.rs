use technicals::bollinger::BollingerValue;
use technicals::engine::Entry;
use technicals::engine::TechnicalsCalculator;
use technicals::fixed::UNIT;
use technicals::indicator::Indicator;
use technicals::indicator::IndicatorKey;
use technicals::indicator::Reading;
use technicals::settings::AtrSettings;
use technicals::settings::BbSettings;
use technicals::settings::IndicatorSettings;
use technicals::settings::RsiSettings;
use technicals::settings::SuperTrendSettings;

fn units(x: i64) -> i64 {
    x * UNIT
}

fn reading_of(entries: &[Entry], key: IndicatorKey) -> Option<Reading> {
    entries.iter().find(|e| e.key == key).map(|e| e.reading)
}

#[test]
fn test_supertrend_multiplier() {
    let mut calc = TechnicalsCalculator::new();

    let closes = vec![units(100); 20];
    let highs = vec![units(105); 20];
    let lows = vec![units(95); 20];
    let volumes = vec![units(1000); 20];
    let times = vec![0; 20];

    let mut settings = IndicatorSettings::default();
    settings.supertrend.push(SuperTrendSettings { length: 14, multiplier: 4_500_000 });

    calc.initialize(&closes, &highs, &lows, &volumes, &times, settings);

    let key = IndicatorKey::SuperTrend { length: 14, multiplier: 4_500_000 };
    let pos = calc.find(key).expect("SuperTrend state should exist");
    match calc.indicator(pos) {
        Indicator::SuperTrend(state) => {
            assert_eq!(state.multiplier, 4_500_000, "Multiplier should be 4.5 as set in settings");
            assert!(state.initialized);
        }
        other => panic!("unexpected instance {:?}", other),
    }
}

#[test]
fn flat_history_end_to_end() {
    let mut calc = TechnicalsCalculator::new();
    let closes = vec![units(100); 30];
    let highs = vec![units(105); 30];
    let lows = vec![units(95); 30];
    let volumes = vec![units(1000); 30];
    let times = vec![0; 30];
    let mut settings = IndicatorSettings::default();
    settings.rsi.push(RsiSettings { length: 14 });
    settings.atr.push(AtrSettings { length: 14 });
    settings.bb.push(BbSettings { length: 20, std_dev: 2 * UNIT });
    calc.initialize(&closes, &highs, &lows, &volumes, &times, settings);
    calc.shift(units(100), units(105), units(95), units(100), units(1000), 0);

    let out = calc.update(units(100), units(105), units(95), units(100), units(1000), 0);
    assert_eq!(
        reading_of(&out.oscillators, IndicatorKey::Rsi { length: 14 }),
        Some(Reading::Single(units(100) as i128))
    );
    assert_eq!(
        reading_of(&out.volatility, IndicatorKey::Atr { length: 14 }),
        Some(Reading::Single(units(10) as i128))
    );
    assert_eq!(
        reading_of(&out.volatility, IndicatorKey::Bb { length: 20, multiplier: 2 * UNIT }),
        Some(Reading::Bands(BollingerValue {
            upper: units(100) as i128,
            lower: units(100) as i128,
            basis: units(100),
            percent_b: (UNIT / 2) as i128,
        }))
    );
    assert!(out.moving_averages.is_empty());
    assert!(out.pivots.is_none());
}
