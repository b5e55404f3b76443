use vstd::prelude::*;

use crate::chart::Candle;
use crate::ratio::Ratio;
use crate::util::PRICE_MAX;

verus! {

/// The kinds of indicator the engine can attach to a chart.  Only the
/// simple moving average exists; the type is open for extension.
#[derive(Clone, Copy, Debug, PartialEq, Eq, Structural)]
pub enum IndicatorType {
    SMA,
}

/// A derived scalar recomputed from the owning chart's completed candles
/// whenever the candle set changes.
pub struct Indicator {
    pub name: Vec<u8>,
    /// How many completed candles the indicator reads.
    pub lookback: usize,
    pub indicator_type: IndicatorType,
    /// The last computed value; undefined (zero denominator) until the
    /// first recomputation on a full chart.
    pub value: Ratio,
}

/// The mathematical shadow of an `Indicator`.
#[verifier::ext_equal]
pub struct IndicatorModel {
    pub name: Seq<u8>,
    pub lookback: int,
    pub indicator_type: IndicatorType,
    pub value: Ratio,
}

impl View for Indicator {
    type V = IndicatorModel;

    open spec fn view(&self) -> IndicatorModel {
        IndicatorModel {
            name: self.name@,
            lookback: self.lookback as int,
            indicator_type: self.indicator_type,
            value: self.value,
        }
    }
}

impl IndicatorModel {
    pub open spec fn wf(self) -> bool {
        1 <= self.lookback <= 0x7FFF_FFFF
    }
}

/// The sum of `close_bid` over candle indexes `1..=k`: index 0, the
/// in-progress bar, is deliberately excluded.
pub open spec fn spec_sma_sum(candles: Seq<Candle>, k: int) -> int
    decreases k,
{
    if k <= 0 {
        0
    } else {
        spec_sma_sum(candles, k - 1) + candles[k].close_bid
    }
}

pub proof fn lemma_sma_sum_bound(candles: Seq<Candle>, k: int)
    requires
        0 <= k < candles.len(),
        forall|i: int| 0 <= i < candles.len() ==> (#[trigger] candles[i]).close_bid <= PRICE_MAX,
    ensures
        0 <= spec_sma_sum(candles, k) <= k * PRICE_MAX,
    decreases k,
{
    if k > 0 {
        lemma_sma_sum_bound(candles, k - 1);
    }
}

/// The indicator after one recomputation against the given candle list.
pub open spec fn spec_updated_indicator(d: IndicatorModel, candles: Seq<Candle>) -> IndicatorModel {
    IndicatorModel {
        value: Ratio { num: spec_sma_sum(candles, d.lookback) as i64, den: d.lookback as i64 },
        ..d
    }
}

impl Indicator {
    /// A new indicator with the given lookback; its value is undefined
    /// until the owning chart first fills.
    pub fn new(name: Vec<u8>, num_candles: usize, it: IndicatorType) -> (r: Indicator)
        requires
            1 <= num_candles <= 0x7FFF_FFFF,
        ensures
            r@.name == name@,
            r@.lookback == num_candles as int,
            r@.indicator_type == it,
            r@.value == (Ratio { num: 0, den: 0 }),
            r@.wf(),
    {
        Indicator { name, lookback: num_candles, indicator_type: it, value: Ratio { num: 0, den: 0 } }
    }

    /// A new simple moving average over `num_candles` completed candles.
    pub fn new_sma(name: Vec<u8>, num_candles: usize) -> (r: Indicator)
        requires
            1 <= num_candles <= 0x7FFF_FFFF,
        ensures
            r@.name == name@,
            r@.lookback == num_candles as int,
            r@.indicator_type == IndicatorType::SMA,
            r@.value == (Ratio { num: 0, den: 0 }),
            r@.wf(),
    {
        Indicator::new(name, num_candles, IndicatorType::SMA)
    }

    /// Recomputes the indicator from the chart's candles, newest first,
    /// skipping the incomplete bar at index 0.  The `active` flag is the
    /// owning chart's reporting gate; the value is recomputed either way,
    /// and published to the strategy only through the simulation view.
    pub fn update(&mut self, candles: &Vec<Candle>, _active: bool)
        requires
            old(self)@.wf(),
            old(self).lookback < candles@.len(),
            forall|i: int| 0 <= i < candles@.len()
                ==> (#[trigger] candles@[i]).close_bid <= PRICE_MAX,
        ensures
            final(self)@ == spec_updated_indicator(old(self)@, candles@),
    {
        let mut sum: u64 = 0;
        let mut i: usize = 1;
        while i <= self.lookback
            invariant
                1 <= i <= self.lookback + 1,
                self == old(self),
                self@.wf(),
                self.lookback < candles@.len(),
                forall|j: int| 0 <= j < candles@.len()
                    ==> (#[trigger] candles@[j]).close_bid <= PRICE_MAX,
                sum == spec_sma_sum(candles@, i - 1),
                sum <= (i - 1) * PRICE_MAX,
            decreases self.lookback + 1 - i,
        {
            sum = sum + candles[i].close_bid;
            i += 1;
        }
        proof {
            lemma_sma_sum_bound(candles@, self.lookback as int);
        }
        self.value = Ratio { num: sum as i64, den: self.lookback as i64 };
    }
}

/// An explicit deep copy; the clone's mathematical value equals the
/// original's.
impl Clone for Indicator {
    fn clone(&self) -> (r: Indicator)
        ensures
            r@ == self@,
    {
        let mut name: Vec<u8> = Vec::new();
        let mut i: usize = 0;
        while i < self.name.len()
            invariant
                i <= self.name@.len(),
                name@ =~= self.name@.subrange(0, i as int),
            decreases self.name@.len() - i,
        {
            let b = self.name[i];
            name.push(b);
            i += 1;
        }
        proof {
            assert(name@ =~= self.name@);
        }
        Indicator {
            name,
            lookback: self.lookback,
            indicator_type: self.indicator_type,
            value: self.value,
        }
    }
}

} // verus!
