//! From a configuration to the keys of the instances it asks for.

use vstd::prelude::*;
use crate::indicator::IndicatorKey;
use crate::settings::EmaSettings;
use crate::settings::SmaSettings;
use crate::settings::WmaSettings;
use crate::settings::VwmaSettings;
use crate::settings::HmaSettings;
use crate::settings::RsiSettings;
use crate::settings::MacdSettings;
use crate::settings::MfiSettings;
use crate::settings::PsarSettings;
use crate::settings::BbSettings;
use crate::settings::AtrSettings;
use crate::settings::StochSettings;
use crate::settings::CciSettings;
use crate::settings::MomSettings;
use crate::settings::VolMaSettings;
use crate::settings::WrSettings;
use crate::settings::AdxSettings;
use crate::settings::SuperTrendSettings;
use crate::settings::ChopSettings;
use crate::settings::IndicatorSettings;

verus! {

/// A parameter set of one family: it names the instance it asks for.
pub trait ParameterSet {
    /// The key of the instance that the parameter set asks for.
    spec fn spec_key(&self) -> IndicatorKey;

    /// The key of the instance that the parameter set asks for.
    fn key(&self) -> (k: IndicatorKey)
        ensures
            k == self.spec_key(),
    ;
}

impl ParameterSet for EmaSettings {
    open spec fn spec_key(&self) -> IndicatorKey {
        IndicatorKey::Ema { length: self.length }
    }

    fn key(&self) -> (k: IndicatorKey) {
        IndicatorKey::Ema { length: self.length }
    }
}

impl ParameterSet for SmaSettings {
    open spec fn spec_key(&self) -> IndicatorKey {
        IndicatorKey::Sma { length: self.length }
    }

    fn key(&self) -> (k: IndicatorKey) {
        IndicatorKey::Sma { length: self.length }
    }
}

impl ParameterSet for WmaSettings {
    open spec fn spec_key(&self) -> IndicatorKey {
        IndicatorKey::Wma { length: self.length }
    }

    fn key(&self) -> (k: IndicatorKey) {
        IndicatorKey::Wma { length: self.length }
    }
}

impl ParameterSet for VwmaSettings {
    open spec fn spec_key(&self) -> IndicatorKey {
        IndicatorKey::Vwma { length: self.length }
    }

    fn key(&self) -> (k: IndicatorKey) {
        IndicatorKey::Vwma { length: self.length }
    }
}

impl ParameterSet for HmaSettings {
    open spec fn spec_key(&self) -> IndicatorKey {
        IndicatorKey::Hma { length: self.length }
    }

    fn key(&self) -> (k: IndicatorKey) {
        IndicatorKey::Hma { length: self.length }
    }
}

impl ParameterSet for RsiSettings {
    open spec fn spec_key(&self) -> IndicatorKey {
        IndicatorKey::Rsi { length: self.length }
    }

    fn key(&self) -> (k: IndicatorKey) {
        IndicatorKey::Rsi { length: self.length }
    }
}

impl ParameterSet for MacdSettings {
    open spec fn spec_key(&self) -> IndicatorKey {
        IndicatorKey::Macd { fast: self.fast, slow: self.slow, signal: self.signal }
    }

    fn key(&self) -> (k: IndicatorKey) {
        IndicatorKey::Macd { fast: self.fast, slow: self.slow, signal: self.signal }
    }
}

impl ParameterSet for BbSettings {
    open spec fn spec_key(&self) -> IndicatorKey {
        IndicatorKey::Bb { length: self.length, multiplier: self.std_dev }
    }

    fn key(&self) -> (k: IndicatorKey) {
        IndicatorKey::Bb { length: self.length, multiplier: self.std_dev }
    }
}

impl ParameterSet for AtrSettings {
    open spec fn spec_key(&self) -> IndicatorKey {
        IndicatorKey::Atr { length: self.length }
    }

    fn key(&self) -> (k: IndicatorKey) {
        IndicatorKey::Atr { length: self.length }
    }
}

impl ParameterSet for StochSettings {
    open spec fn spec_key(&self) -> IndicatorKey {
        IndicatorKey::Stoch { k: self.k, d: self.d, smooth: self.smooth }
    }

    fn key(&self) -> (k: IndicatorKey) {
        IndicatorKey::Stoch { k: self.k, d: self.d, smooth: self.smooth }
    }
}

impl ParameterSet for CciSettings {
    open spec fn spec_key(&self) -> IndicatorKey {
        IndicatorKey::Cci { length: self.length }
    }

    fn key(&self) -> (k: IndicatorKey) {
        IndicatorKey::Cci { length: self.length }
    }
}

impl ParameterSet for MomSettings {
    open spec fn spec_key(&self) -> IndicatorKey {
        IndicatorKey::Mom { length: self.length }
    }

    fn key(&self) -> (k: IndicatorKey) {
        IndicatorKey::Mom { length: self.length }
    }
}

impl ParameterSet for VolMaSettings {
    open spec fn spec_key(&self) -> IndicatorKey {
        IndicatorKey::VolMa { length: self.length }
    }

    fn key(&self) -> (k: IndicatorKey) {
        IndicatorKey::VolMa { length: self.length }
    }
}

impl ParameterSet for WrSettings {
    open spec fn spec_key(&self) -> IndicatorKey {
        IndicatorKey::Wr { length: self.length }
    }

    fn key(&self) -> (k: IndicatorKey) {
        IndicatorKey::Wr { length: self.length }
    }
}

impl ParameterSet for AdxSettings {
    open spec fn spec_key(&self) -> IndicatorKey {
        IndicatorKey::Adx { length: self.length }
    }

    fn key(&self) -> (k: IndicatorKey) {
        IndicatorKey::Adx { length: self.length }
    }
}

impl ParameterSet for SuperTrendSettings {
    open spec fn spec_key(&self) -> IndicatorKey {
        IndicatorKey::SuperTrend { length: self.length, multiplier: self.multiplier }
    }

    fn key(&self) -> (k: IndicatorKey) {
        IndicatorKey::SuperTrend { length: self.length, multiplier: self.multiplier }
    }
}

impl ParameterSet for ChopSettings {
    open spec fn spec_key(&self) -> IndicatorKey {
        IndicatorKey::Chop { length: self.length }
    }

    fn key(&self) -> (k: IndicatorKey) {
        IndicatorKey::Chop { length: self.length }
    }
}

impl ParameterSet for MfiSettings {
    open spec fn spec_key(&self) -> IndicatorKey {
        IndicatorKey::Mfi { length: self.length }
    }

    fn key(&self) -> (k: IndicatorKey) {
        IndicatorKey::Mfi { length: self.length }
    }
}

impl ParameterSet for PsarSettings {
    open spec fn spec_key(&self) -> IndicatorKey {
        IndicatorKey::Psar { start: self.start, increment: self.increment, max: self.max }
    }

    fn key(&self) -> (k: IndicatorKey) {
        IndicatorKey::Psar { start: self.start, increment: self.increment, max: self.max }
    }
}

/// The keys of the averages over the first `n` configured anchors: one for
/// each position.
pub open spec fn anchor_keys(n: nat) -> Seq<IndicatorKey> {
    Seq::new(n, |i: int| IndicatorKey::Vwap { slot: i as usize })
}

/// The keys that a list of parameter sets asks for, in order.
pub open spec fn keys_of<S: ParameterSet>(items: Seq<S>) -> Seq<IndicatorKey> {
    Seq::new(items.len(), |i: int| items[i].spec_key())
}

/// A list of keys with every repetition of an earlier key left out.
pub open spec fn distinct(keys: Seq<IndicatorKey>) -> Seq<IndicatorKey>
    decreases keys.len(),
{
    if keys.len() == 0 {
        Seq::empty()
    } else {
        let before = distinct(keys.drop_last());
        if before.contains(keys.last()) {
            before
        } else {
            before.push(keys.last())
        }
    }
}

/// No key occurs twice.
pub open spec fn no_repeats(keys: Seq<IndicatorKey>) -> bool {
    forall|i: int, j: int| 0 <= i < j < keys.len() ==> keys[i] != keys[j]
}

/// A list without repetitions holds exactly the keys of the list it was made
/// from.
pub proof fn lemma_distinct(keys: Seq<IndicatorKey>)
    ensures
        no_repeats(distinct(keys)),
        forall|k: IndicatorKey| distinct(keys).contains(k) <==> keys.contains(k),
        distinct(keys).len() <= keys.len(),
    decreases keys.len(),
{
    if keys.len() > 0 {
        let before = distinct(keys.drop_last());
        lemma_distinct(keys.drop_last());
        assert forall|k: IndicatorKey| distinct(keys).contains(k) <==> keys.contains(k) by {
            if keys.contains(k) {
                let i = choose|i: int| 0 <= i < keys.len() && keys[i] == k;
                if i < keys.len() - 1 {
                    assert(keys.drop_last()[i] == k);
                    assert(keys.drop_last().contains(k));
                    let j = choose|j: int| 0 <= j < before.len() && before[j] == k;
                    assert(distinct(keys)[j] == k);
                } else {
                    if before.contains(k) {
                    } else {
                        assert(distinct(keys)[before.len() as int] == k);
                    }
                }
            }
            if distinct(keys).contains(k) {
                let j = choose|j: int| 0 <= j < distinct(keys).len() && distinct(keys)[j] == k;
                if j < before.len() {
                    assert(before[j] == k);
                    assert(before.contains(k));
                    assert(keys.drop_last().contains(k));
                    let i = choose|i: int|
                        0 <= i < keys.drop_last().len() && keys.drop_last()[i] == k;
                    assert(keys[i] == k);
                } else {
                    assert(keys[keys.len() - 1] == k);
                }
            }
        }
    }
}

impl IndicatorSettings {
    /// The keys that the configuration asks for, family by family, each
    /// family's in the order of its parameter sets.
    pub open spec fn configured(&self) -> Seq<IndicatorKey> {
        keys_of(self.ema@)
            + keys_of(self.sma@)
            + keys_of(self.wma@)
            + keys_of(self.vwma@)
            + keys_of(self.hma@)
            + keys_of(self.rsi@)
            + keys_of(self.macd@)
            + keys_of(self.bb@)
            + keys_of(self.atr@)
            + keys_of(self.stoch@)
            + keys_of(self.cci@)
            + keys_of(self.mom@)
            + keys_of(self.volma@)
            + keys_of(self.wr@)
            + keys_of(self.adx@)
            + keys_of(self.supertrend@)
            + keys_of(self.chop@)
            + keys_of(self.mfi@)
            + keys_of(self.psar@)
            + anchor_keys(self.vwap@.len())
    }

    /// The keys that the configuration asks for.
    pub fn keys(&self) -> (keys: Vec<IndicatorKey>)
        ensures
            keys@ == self.configured(),
    {
        let mut keys: Vec<IndicatorKey> = Vec::new();
        assert(keys@ =~= Seq::<IndicatorKey>::empty());
        extend_keys(&mut keys, &self.ema);
        extend_keys(&mut keys, &self.sma);
        extend_keys(&mut keys, &self.wma);
        extend_keys(&mut keys, &self.vwma);
        extend_keys(&mut keys, &self.hma);
        extend_keys(&mut keys, &self.rsi);
        extend_keys(&mut keys, &self.macd);
        extend_keys(&mut keys, &self.bb);
        extend_keys(&mut keys, &self.atr);
        extend_keys(&mut keys, &self.stoch);
        extend_keys(&mut keys, &self.cci);
        extend_keys(&mut keys, &self.mom);
        extend_keys(&mut keys, &self.volma);
        extend_keys(&mut keys, &self.wr);
        extend_keys(&mut keys, &self.adx);
        extend_keys(&mut keys, &self.supertrend);
        extend_keys(&mut keys, &self.chop);
        extend_keys(&mut keys, &self.mfi);
        extend_keys(&mut keys, &self.psar);
        extend_anchor_keys(&mut keys, self.vwap.len());
        keys
    }
}

/// Appends the keys that a list of parameter sets asks for.
fn extend_keys<S: ParameterSet>(keys: &mut Vec<IndicatorKey>, items: &Vec<S>)
    ensures
        final(keys)@ == old(keys)@ + keys_of(items@),
{
    let mut i: usize = 0;
    assert(keys@ =~= old(keys)@ + keys_of(items@).subrange(0, 0));
    while i < items.len()
        invariant
            i <= items@.len(),
            keys@ == old(keys)@ + keys_of(items@).subrange(0, i as int),
        decreases items@.len() - i,
    {
        let k = items[i].key();
        keys.push(k);
        i += 1;
        assert(keys@ =~= old(keys)@ + keys_of(items@).subrange(0, i as int));
    }
    assert(keys_of(items@).subrange(0, i as int) =~= keys_of(items@));
}

/// Appends the keys of the averages over the first `n` configured anchors.
fn extend_anchor_keys(keys: &mut Vec<IndicatorKey>, n: usize)
    ensures
        final(keys)@ == old(keys)@ + anchor_keys(n as nat),
{
    let mut i: usize = 0;
    assert(keys@ =~= old(keys)@ + anchor_keys(n as nat).subrange(0, 0));
    while i < n
        invariant
            i <= n,
            keys@ == old(keys)@ + anchor_keys(n as nat).subrange(0, i as int),
        decreases n - i,
    {
        keys.push(IndicatorKey::Vwap { slot: i });
        i += 1;
        assert(keys@ =~= old(keys)@ + anchor_keys(n as nat).subrange(0, i as int));
    }
    assert(anchor_keys(n as nat).subrange(0, n as int) =~= anchor_keys(n as nat));
}

/// Whether a list of keys holds the given key.
pub fn holds_key(keys: &Vec<IndicatorKey>, key: IndicatorKey) -> (found: bool)
    ensures
        found == keys@.contains(key),
{
    let mut i: usize = 0;
    while i < keys.len()
        invariant
            i <= keys@.len(),
            forall|j: int| 0 <= j < i ==> keys@[j] != key,
        decreases keys@.len() - i,
    {
        if keys[i] == key {
            return true;
        }
        i += 1;
    }
    false
}

/// The list of keys with every repetition of an earlier key left out.
pub fn distinct_keys(keys: &Vec<IndicatorKey>) -> (out: Vec<IndicatorKey>)
    ensures
        out@ == distinct(keys@),
        no_repeats(out@),
{
    let mut out: Vec<IndicatorKey> = Vec::new();
    let mut i: usize = 0;
    assert(keys@.subrange(0, 0) =~= Seq::<IndicatorKey>::empty());
    while i < keys.len()
        invariant
            i <= keys@.len(),
            out@ == distinct(keys@.subrange(0, i as int)),
        decreases keys@.len() - i,
    {
        assert(keys@.subrange(0, i + 1).drop_last() =~= keys@.subrange(0, i as int));
        if !holds_key(&out, keys[i]) {
            out.push(keys[i]);
        }
        i += 1;
    }
    proof {
        assert(keys@.subrange(0, i as int) =~= keys@);
        lemma_distinct(keys@);
    }
    out
}

} // verus!
