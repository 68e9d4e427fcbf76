//! Streaming technical-analysis indicators over fixed-point price bars.
//!
//! Every price, volume and indicator value is an integer number of ticks,
//! `UNIT` ticks to one whole unit. All arithmetic is exact integer arithmetic;
//! a quotient is always rounded down. The engine takes every input: a price or
//! volume beyond `VALUE_MAX` ticks counts as the largest admissible one, and
//! columns of unequal length give the bars that they share.
//!
//! An engine is seeded once from history. After that `update` previews what
//! every indicator would report for a bar without changing anything, and
//! `shift` commits a closed bar. An indicator that history was too short to
//! seed reports nothing until the bars that the engine keeps suffice to seed
//! it; once seeded it stays so.

pub mod adx;
pub mod atr;
pub mod bar;
pub mod bollinger;
pub mod cci;
pub mod chop;
pub mod config;
pub mod ema;
pub mod engine;
pub mod fixed;
pub mod history;
pub mod indicator;
pub mod label;
pub mod laws;
pub mod macd;
pub mod mfi;
pub mod momentum;
pub mod pivots;
pub mod psar;
pub mod rsi;
pub mod series;
pub mod settings;
pub mod sma;
pub mod stochastic;
pub mod supertrend;
pub mod vwap;
pub mod vwma;
pub mod window;
pub mod wma;

pub use crate::engine::TechnicalsCalculator;
pub use crate::pivots::PivotState;
pub use crate::psar::PsarState;
pub use crate::settings::AdSettings;
pub use crate::settings::AdxSettings;
pub use crate::settings::AroonSettings;
pub use crate::settings::AtrSettings;
pub use crate::settings::BbSettings;
pub use crate::settings::CciSettings;
pub use crate::settings::ChopSettings;
pub use crate::settings::DonchianSettings;
pub use crate::settings::EmaSettings;
pub use crate::settings::HmaSettings;
pub use crate::settings::IchimokuSettings;
pub use crate::settings::IndicatorSettings;
pub use crate::settings::KeltnerSettings;
pub use crate::settings::MacdSettings;
pub use crate::settings::MfiSettings;
pub use crate::settings::MomSettings;
pub use crate::settings::ObvSettings;
pub use crate::settings::PivotSettings;
pub use crate::settings::PsarSettings;
pub use crate::settings::RocSettings;
pub use crate::settings::RsiSettings;
pub use crate::settings::SmaSettings;
pub use crate::settings::StochRsiSettings;
pub use crate::settings::StochSettings;
pub use crate::settings::SuperTrendSettings;
pub use crate::settings::TsiSettings;
pub use crate::settings::VolMaSettings;
pub use crate::settings::VolumeProfileSettings;
pub use crate::settings::VwapSettings;
pub use crate::settings::VwmaSettings;
pub use crate::settings::WmaSettings;
pub use crate::settings::WrSettings;
