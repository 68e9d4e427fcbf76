//! Parameter sets of the indicator families.
//!
//! A parameter that is a fraction, such as a band multiplier, is held in ticks
//! like every other value.

use vstd::prelude::*;

verus! {

/// Exponential moving average.
#[derive(Clone, Copy, Debug, PartialEq, Eq, Structural)]
pub struct EmaSettings {
    pub length: usize,
}

impl Default for EmaSettings {
    fn default() -> (s: Self)
        ensures
            s == (EmaSettings { length: 0 }),
    {
        EmaSettings { length: 0 }
    }
}

/// Simple moving average.
#[derive(Clone, Copy, Debug, PartialEq, Eq, Structural)]
pub struct SmaSettings {
    pub length: usize,
}

impl Default for SmaSettings {
    fn default() -> (s: Self)
        ensures
            s == (SmaSettings { length: 0 }),
    {
        SmaSettings { length: 0 }
    }
}

/// Weighted moving average.
#[derive(Clone, Copy, Debug, PartialEq, Eq, Structural)]
pub struct WmaSettings {
    pub length: usize,
}

impl Default for WmaSettings {
    fn default() -> (s: Self)
        ensures
            s == (WmaSettings { length: 0 }),
    {
        WmaSettings { length: 0 }
    }
}

/// Volume-weighted moving average.
#[derive(Clone, Copy, Debug, PartialEq, Eq, Structural)]
pub struct VwmaSettings {
    pub length: usize,
}

impl Default for VwmaSettings {
    fn default() -> (s: Self)
        ensures
            s == (VwmaSettings { length: 0 }),
    {
        VwmaSettings { length: 0 }
    }
}

/// Hull moving average.
#[derive(Clone, Copy, Debug, PartialEq, Eq, Structural)]
pub struct HmaSettings {
    pub length: usize,
}

impl Default for HmaSettings {
    fn default() -> (s: Self)
        ensures
            s == (HmaSettings { length: 0 }),
    {
        HmaSettings { length: 0 }
    }
}

/// Relative strength index; by default over 14 bars.
#[derive(Clone, Copy, Debug, PartialEq, Eq, Structural)]
pub struct RsiSettings {
    pub length: usize,
}

impl Default for RsiSettings {
    fn default() -> (s: Self)
        ensures
            s == (RsiSettings { length: 14 }),
    {
        RsiSettings { length: 14 }
    }
}

/// Moving average convergence/divergence; by default 12, 26 and 9 bars.
#[derive(Clone, Copy, Debug, PartialEq, Eq, Structural)]
pub struct MacdSettings {
    pub fast: usize,
    pub slow: usize,
    pub signal: usize,
}

impl Default for MacdSettings {
    fn default() -> (s: Self)
        ensures
            s == (MacdSettings { fast: 12, slow: 26, signal: 9 }),
    {
        MacdSettings { fast: 12, slow: 26, signal: 9 }
    }
}

/// Bollinger bands; by default over 20 bars at two deviations. The multiplier is in ticks.
#[derive(Clone, Copy, Debug, PartialEq, Eq, Structural)]
pub struct BbSettings {
    pub length: usize,
    pub std_dev: i64,
}

impl Default for BbSettings {
    fn default() -> (s: Self)
        ensures
            s == (BbSettings { length: 20, std_dev: 2_000_000 }),
    {
        BbSettings { length: 20, std_dev: 2_000_000 }
    }
}

/// Average true range.
#[derive(Clone, Copy, Debug, PartialEq, Eq, Structural)]
pub struct AtrSettings {
    pub length: usize,
}

impl Default for AtrSettings {
    fn default() -> (s: Self)
        ensures
            s == (AtrSettings { length: 0 }),
    {
        AtrSettings { length: 0 }
    }
}

/// Stochastic oscillator; by default 14, 3 and 3 bars.
#[derive(Clone, Copy, Debug, PartialEq, Eq, Structural)]
pub struct StochSettings {
    pub k: usize,
    pub d: usize,
    pub smooth: usize,
}

impl Default for StochSettings {
    fn default() -> (s: Self)
        ensures
            s == (StochSettings { k: 14, d: 3, smooth: 3 }),
    {
        StochSettings { k: 14, d: 3, smooth: 3 }
    }
}

/// Commodity channel index.
#[derive(Clone, Copy, Debug, PartialEq, Eq, Structural)]
pub struct CciSettings {
    pub length: usize,
}

impl Default for CciSettings {
    fn default() -> (s: Self)
        ensures
            s == (CciSettings { length: 0 }),
    {
        CciSettings { length: 0 }
    }
}

/// Average directional index; by default over 14 bars.
#[derive(Clone, Copy, Debug, PartialEq, Eq, Structural)]
pub struct AdxSettings {
    pub length: usize,
}

impl Default for AdxSettings {
    fn default() -> (s: Self)
        ensures
            s == (AdxSettings { length: 14 }),
    {
        AdxSettings { length: 14 }
    }
}

/// SuperTrend; by default over 10 bars at three ranges. The multiplier is in ticks.
#[derive(Clone, Copy, Debug, PartialEq, Eq, Structural)]
pub struct SuperTrendSettings {
    pub length: usize,
    pub multiplier: i64,
}

impl Default for SuperTrendSettings {
    fn default() -> (s: Self)
        ensures
            s == (SuperTrendSettings { length: 10, multiplier: 3_000_000 }),
    {
        SuperTrendSettings { length: 10, multiplier: 3_000_000 }
    }
}

/// Momentum.
#[derive(Clone, Copy, Debug, PartialEq, Eq, Structural)]
pub struct MomSettings {
    pub length: usize,
}

impl Default for MomSettings {
    fn default() -> (s: Self)
        ensures
            s == (MomSettings { length: 0 }),
    {
        MomSettings { length: 0 }
    }
}

/// Williams %R.
#[derive(Clone, Copy, Debug, PartialEq, Eq, Structural)]
pub struct WrSettings {
    pub length: usize,
}

impl Default for WrSettings {
    fn default() -> (s: Self)
        ensures
            s == (WrSettings { length: 0 }),
    {
        WrSettings { length: 0 }
    }
}

/// Moving average of the volume.
#[derive(Clone, Copy, Debug, PartialEq, Eq, Structural)]
pub struct VolMaSettings {
    pub length: usize,
}

impl Default for VolMaSettings {
    fn default() -> (s: Self)
        ensures
            s == (VolMaSettings { length: 0 }),
    {
        VolMaSettings { length: 0 }
    }
}

/// Parabolic stop and reverse. The three factors are in ticks: a factor of
/// 0.02 is 20 000.
#[derive(Clone, Copy, Debug, PartialEq, Eq, Structural)]
pub struct PsarSettings {
    pub start: i64,
    pub increment: i64,
    pub max: i64,
}

impl Default for PsarSettings {
    fn default() -> (s: Self)
        ensures
            s == (PsarSettings { start: 0, increment: 0, max: 0 }),
    {
        PsarSettings { start: 0, increment: 0, max: 0 }
    }
}

/// Choppiness index.
#[derive(Clone, Copy, Debug, PartialEq, Eq, Structural)]
pub struct ChopSettings {
    pub length: usize,
}

impl Default for ChopSettings {
    fn default() -> (s: Self)
        ensures
            s == (ChopSettings { length: 0 }),
    {
        ChopSettings { length: 0 }
    }
}

/// Money flow index.
#[derive(Clone, Copy, Debug, PartialEq, Eq, Structural)]
pub struct MfiSettings {
    pub length: usize,
}

impl Default for MfiSettings {
    fn default() -> (s: Self)
        ensures
            s == (MfiSettings { length: 0 }),
    {
        MfiSettings { length: 0 }
    }
}

/// Stochastic of the relative strength index.
#[derive(Clone, Copy, Debug, PartialEq, Eq, Structural)]
pub struct StochRsiSettings {
    pub length: usize,
    pub stoch_length: usize,
    pub k: usize,
    pub d: usize,
}

impl Default for StochRsiSettings {
    fn default() -> (s: Self)
        ensures
            s == (StochRsiSettings { length: 0, stoch_length: 0, k: 0, d: 0 }),
    {
        StochRsiSettings { length: 0, stoch_length: 0, k: 0, d: 0 }
    }
}

/// Aroon.
#[derive(Clone, Copy, Debug, PartialEq, Eq, Structural)]
pub struct AroonSettings {
    pub length: usize,
}

impl Default for AroonSettings {
    fn default() -> (s: Self)
        ensures
            s == (AroonSettings { length: 0 }),
    {
        AroonSettings { length: 0 }
    }
}

/// Ichimoku cloud.
#[derive(Clone, Copy, Debug, PartialEq, Eq, Structural)]
pub struct IchimokuSettings {
    pub conversion: usize,
    pub base: usize,
    pub span_b: usize,
    pub displacement: usize,
}

impl Default for IchimokuSettings {
    fn default() -> (s: Self)
        ensures
            s == (IchimokuSettings { conversion: 0, base: 0, span_b: 0, displacement: 0 }),
    {
        IchimokuSettings { conversion: 0, base: 0, span_b: 0, displacement: 0 }
    }
}

/// Keltner channel. The multiplier is in ticks.
#[derive(Clone, Copy, Debug, PartialEq, Eq, Structural)]
pub struct KeltnerSettings {
    pub length: usize,
    pub multiplier: i64,
    pub atr_length: usize,
}

impl Default for KeltnerSettings {
    fn default() -> (s: Self)
        ensures
            s == (KeltnerSettings { length: 0, multiplier: 0, atr_length: 0 }),
    {
        KeltnerSettings { length: 0, multiplier: 0, atr_length: 0 }
    }
}

/// Donchian channel.
#[derive(Clone, Copy, Debug, PartialEq, Eq, Structural)]
pub struct DonchianSettings {
    pub length: usize,
}

impl Default for DonchianSettings {
    fn default() -> (s: Self)
        ensures
            s == (DonchianSettings { length: 0 }),
    {
        DonchianSettings { length: 0 }
    }
}

/// Volume profile.
#[derive(Clone, Copy, Debug, PartialEq, Eq, Structural)]
pub struct VolumeProfileSettings {
    pub rows: usize,
}

impl Default for VolumeProfileSettings {
    fn default() -> (s: Self)
        ensures
            s == (VolumeProfileSettings { rows: 0 }),
    {
        VolumeProfileSettings { rows: 0 }
    }
}

/// Rate of change.
#[derive(Clone, Copy, Debug, PartialEq, Eq, Structural)]
pub struct RocSettings {
    pub length: usize,
}

impl Default for RocSettings {
    fn default() -> (s: Self)
        ensures
            s == (RocSettings { length: 0 }),
    {
        RocSettings { length: 0 }
    }
}

/// True strength index.
#[derive(Clone, Copy, Debug, PartialEq, Eq, Structural)]
pub struct TsiSettings {
    pub long: usize,
    pub short: usize,
    pub signal: usize,
}

impl Default for TsiSettings {
    fn default() -> (s: Self)
        ensures
            s == (TsiSettings { long: 0, short: 0, signal: 0 }),
    {
        TsiSettings { long: 0, short: 0, signal: 0 }
    }
}

/// On-balance volume: no parameters.
#[derive(Clone, Copy, Debug, PartialEq, Eq, Structural)]
pub struct ObvSettings {}

impl Default for ObvSettings {
    fn default() -> (s: Self)
        ensures
            s == (ObvSettings {  }),
    {
        ObvSettings {  }
    }
}

/// Accumulation/distribution: no parameters.
#[derive(Clone, Copy, Debug, PartialEq, Eq, Structural)]
pub struct AdSettings {}

impl Default for AdSettings {
    fn default() -> (s: Self)
        ensures
            s == (AdSettings {  }),
    {
        AdSettings {  }
    }
}

/// Pivot levels: the name of the method.
#[derive(Clone, Debug, PartialEq, Eq)]
pub struct PivotSettings {
    pub type_: String,
}

impl Default for PivotSettings {
    fn default() -> (s: Self)
        ensures
            s.type_@ == Seq::<char>::empty(),
    {
        PivotSettings { type_: String::new() }
    }
}

/// Volume-weighted average price: the name of the anchor period.
#[derive(Clone, Debug, PartialEq, Eq)]
pub struct VwapSettings {
    pub anchor: String,
}

impl Default for VwapSettings {
    fn default() -> (s: Self)
        ensures
            s.anchor@ == Seq::<char>::empty(),
    {
        VwapSettings { anchor: String::new() }
    }
}

/// The configuration of an engine: for each family, zero or more parameter
/// sets, each of which makes one instance.
#[derive(Clone, Debug, PartialEq, Eq)]
pub struct IndicatorSettings {
    pub ema: Vec<EmaSettings>,
    pub sma: Vec<SmaSettings>,
    pub wma: Vec<WmaSettings>,
    pub vwma: Vec<VwmaSettings>,
    pub hma: Vec<HmaSettings>,
    pub rsi: Vec<RsiSettings>,
    pub macd: Vec<MacdSettings>,
    pub bb: Vec<BbSettings>,
    pub atr: Vec<AtrSettings>,
    pub stoch: Vec<StochSettings>,
    pub cci: Vec<CciSettings>,
    pub adx: Vec<AdxSettings>,
    pub supertrend: Vec<SuperTrendSettings>,
    pub mom: Vec<MomSettings>,
    pub wr: Vec<WrSettings>,
    pub volma: Vec<VolMaSettings>,
    pub pivots: Vec<PivotSettings>,
    pub psar: Vec<PsarSettings>,
    pub chop: Vec<ChopSettings>,
    pub vwap: Vec<VwapSettings>,
    pub mfi: Vec<MfiSettings>,
}

impl Default for IndicatorSettings {
    /// The empty configuration: no family has an instance.
    fn default() -> (s: Self)
        ensures
            s.is_empty(),
    {
        IndicatorSettings {
            ema: Vec::new(),
            sma: Vec::new(),
            wma: Vec::new(),
            vwma: Vec::new(),
            hma: Vec::new(),
            rsi: Vec::new(),
            macd: Vec::new(),
            bb: Vec::new(),
            atr: Vec::new(),
            stoch: Vec::new(),
            cci: Vec::new(),
            adx: Vec::new(),
            supertrend: Vec::new(),
            mom: Vec::new(),
            wr: Vec::new(),
            volma: Vec::new(),
            pivots: Vec::new(),
            psar: Vec::new(),
            chop: Vec::new(),
            vwap: Vec::new(),
            mfi: Vec::new(),
        }
    }
}

impl IndicatorSettings {
    /// No family has a parameter set.
    pub open spec fn is_empty(&self) -> bool {
        &&& self.ema@.len() == 0
        &&& self.sma@.len() == 0
        &&& self.wma@.len() == 0
        &&& self.vwma@.len() == 0
        &&& self.hma@.len() == 0
        &&& self.rsi@.len() == 0
        &&& self.macd@.len() == 0
        &&& self.bb@.len() == 0
        &&& self.atr@.len() == 0
        &&& self.stoch@.len() == 0
        &&& self.cci@.len() == 0
        &&& self.adx@.len() == 0
        &&& self.supertrend@.len() == 0
        &&& self.mom@.len() == 0
        &&& self.wr@.len() == 0
        &&& self.volma@.len() == 0
        &&& self.pivots@.len() == 0
        &&& self.psar@.len() == 0
        &&& self.chop@.len() == 0
        &&& self.vwap@.len() == 0
        &&& self.mfi@.len() == 0
    }
}

} // verus!
