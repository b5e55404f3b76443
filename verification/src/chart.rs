// Candle indexing convention: index 0 is always the current period's
// incomplete candle; indexes 1..=N are completed candles, newest first.
// A chart configured for N candles therefore holds up to N + 1.

use vstd::prelude::*;

use crate::errors::ConfigError;
use crate::indicators::{
    spec_updated_indicator, Indicator, IndicatorModel,
};
use crate::tick::Tick;
use crate::util::PRICE_MAX;

verus! {

/// The fixed enumeration of chart timeframes.
#[derive(Clone, Copy, Debug, PartialEq, Eq, Structural)]
pub enum ChartPeriod {
    M1,
    M5,
    M15,
    M30,
    H1,
    H4,
}

/// The kinds of chart.  Only candlestick charts are ever constructed;
/// the variant set is open for extension.
#[derive(Clone, Copy, Debug, PartialEq, Eq, Structural)]
pub enum ChartType {
    Candlestick,
    Renko,
}

/// The period mnemonic as it appears in a chart specification.
pub open spec fn spec_period_from(s: Seq<u8>) -> Option<ChartPeriod> {
    if s =~= seq![77u8, 49u8] {
        Some(ChartPeriod::M1)
    } else if s =~= seq![77u8, 53u8] {
        Some(ChartPeriod::M5)
    } else if s =~= seq![77u8, 49u8, 53u8] {
        Some(ChartPeriod::M15)
    } else if s =~= seq![77u8, 51u8, 48u8] {
        Some(ChartPeriod::M30)
    } else if s =~= seq![72u8, 49u8] {
        Some(ChartPeriod::H1)
    } else if s =~= seq![72u8, 52u8] {
        Some(ChartPeriod::H4)
    } else {
        None
    }
}

/// Parses a period mnemonic (`M1`, `M5`, `M15`, `M30`, `H1`, `H4`).
pub fn period_from_string(s: &[u8]) -> (r: Result<ChartPeriod, ConfigError>)
    ensures
        r is Ok <==> spec_period_from(s@) is Some,
        r is Ok ==> Some(r->Ok_0) == spec_period_from(s@),
        r is Err ==> r->Err_0 == ConfigError::UnknownPeriod,
{
    if s.len() == 2 && s[0] == 77 && s[1] == 49 {
        proof { assert(s@ =~= seq![77u8, 49u8]); }
        Ok(ChartPeriod::M1)
    } else if s.len() == 2 && s[0] == 77 && s[1] == 53 {
        proof { assert(s@ =~= seq![77u8, 53u8]); }
        Ok(ChartPeriod::M5)
    } else if s.len() == 3 && s[0] == 77 && s[1] == 49 && s[2] == 53 {
        proof { assert(s@ =~= seq![77u8, 49u8, 53u8]); }
        Ok(ChartPeriod::M15)
    } else if s.len() == 3 && s[0] == 77 && s[1] == 51 && s[2] == 48 {
        proof { assert(s@ =~= seq![77u8, 51u8, 48u8]); }
        Ok(ChartPeriod::M30)
    } else if s.len() == 2 && s[0] == 72 && s[1] == 49 {
        proof { assert(s@ =~= seq![72u8, 49u8]); }
        Ok(ChartPeriod::H1)
    } else if s.len() == 2 && s[0] == 72 && s[1] == 52 {
        proof { assert(s@ =~= seq![72u8, 52u8]); }
        Ok(ChartPeriod::H4)
    } else {
        proof {
            assert(spec_period_from(s@) is None) by {
                if s@.len() == 2 {
                    assert(s@[0] == s[0 as int] && s@[1] == s[1 as int]);
                } else if s@.len() == 3 {
                }
            }
        }
        Err(ConfigError::UnknownPeriod)
    }
}

/// Seconds in one bar of the given timeframe.
pub open spec fn spec_seconds_in_period(p: ChartPeriod) -> int {
    match p {
        ChartPeriod::M1 => 60,
        ChartPeriod::M5 => 300,
        ChartPeriod::M15 => 900,
        ChartPeriod::M30 => 1800,
        ChartPeriod::H1 => 3600,
        ChartPeriod::H4 => 14400,
    }
}

/// Seconds in one bar of the given timeframe.
pub fn seconds_in_period(period: ChartPeriod) -> (r: u64)
    ensures
        r == spec_seconds_in_period(period),
        1 <= r <= 14400,
{
    match period {
        ChartPeriod::M1 => 60,
        ChartPeriod::M5 => 60 * 5,
        ChartPeriod::M15 => 60 * 15,
        ChartPeriod::M30 => 60 * 30,
        ChartPeriod::H1 => 60 * 60,
        ChartPeriod::H4 => 60 * 60 * 4,
    }
}

// ===== CANDLE ==============================================================

/// One OHLC bar.  The close fields stay zero until the bar is superseded
/// by a newer one.
#[derive(Clone, Copy, Debug, PartialEq, Eq, Structural)]
pub struct Candle {
    pub open_bid: u64,
    pub open_ask: u64,
    pub close_bid: u64,
    pub close_ask: u64,
    pub high_bid: u64,
    pub high_ask: u64,
    pub low_bid: u64,
    pub low_ask: u64,
    /// How many ticks this bar has aggregated.
    pub volume: u64,
    /// The period bucket: floor(timestamp / period seconds).
    pub id: u64,
}

/// Structural sanity of one candle: prices in range, lows below highs,
/// at least the opening tick counted.
pub open spec fn candle_wf(k: Candle) -> bool {
    &&& k.open_bid <= PRICE_MAX && k.open_ask <= PRICE_MAX
    &&& k.close_bid <= PRICE_MAX && k.close_ask <= PRICE_MAX
    &&& k.low_bid <= k.high_bid <= PRICE_MAX
    &&& k.low_ask <= k.high_ask <= PRICE_MAX
    &&& 1 <= k.volume
}

/// The candle opened by the first tick of a new period.
pub open spec fn spec_fresh_candle(t: Tick, id: u64) -> Candle {
    Candle {
        open_bid: t.bid,
        open_ask: t.ask,
        close_bid: 0,
        close_ask: 0,
        high_bid: t.bid,
        high_ask: t.ask,
        low_bid: t.bid,
        low_ask: t.ask,
        volume: 1,
        id,
    }
}

/// The candle extended by one more tick of its own period: highs and lows
/// move outward, the volume counts the tick.
pub open spec fn spec_extend_candle(k: Candle, t: Tick) -> Candle {
    Candle {
        high_bid: if t.bid > k.high_bid { t.bid } else { k.high_bid },
        low_bid: if t.bid < k.low_bid { t.bid } else { k.low_bid },
        high_ask: if t.ask > k.high_ask { t.ask } else { k.high_ask },
        low_ask: if t.ask < k.low_ask { t.ask } else { k.low_ask },
        volume: (k.volume + 1) as u64,
        ..k
    }
}

/// The candle finalized against the last tick observed strictly before the
/// new period opened.
pub open spec fn spec_close_candle(k: Candle, last: Tick) -> Candle {
    Candle { close_bid: last.bid, close_ask: last.ask, ..k }
}

/// A fresh candle prepended at index 0, evicting the oldest once the
/// capacity is reached.
pub open spec fn spec_push_candle(cs: Seq<Candle>, k: Candle, max: int) -> Seq<Candle> {
    if cs.len() >= max {
        seq![k] + cs.drop_last()
    } else {
        seq![k] + cs
    }
}

// ===== CHART ===============================================================

/// A bounded rolling window of candles at one timeframe, with attached
/// indicators; mutated only by `process_tick`.
pub struct Chart {
    pub candles: Vec<Candle>,
    pub last_tick: Tick,
    /// Configured candle count plus one (the in-progress bar).
    pub max_candles: usize,
    pub name: Vec<u8>,
    pub seconds_per_period: u64,
    pub indicators: Vec<Indicator>,
    pub chart_type: ChartType,
    pub active: bool,
    pub ticks_processed: u64,
}

/// The mathematical shadow of a `Chart`.
#[verifier::ext_equal]
pub struct ChartModel {
    pub candles: Seq<Candle>,
    pub last_tick: Tick,
    pub max_candles: int,
    pub name: Seq<u8>,
    pub seconds_per_period: int,
    pub indicators: Seq<IndicatorModel>,
    pub chart_type: ChartType,
    pub active: bool,
    pub ticks_processed: int,
}

pub open spec fn inds_views(s: Seq<Indicator>) -> Seq<IndicatorModel> {
    s.map_values(|d: Indicator| d@)
}

/// The mathematical shadows of a whole chart list.
pub open spec fn charts_views(s: Seq<Chart>) -> Seq<ChartModel> {
    s.map_values(|c: Chart| c@)
}

impl View for Chart {
    type V = ChartModel;

    open spec fn view(&self) -> ChartModel {
        ChartModel {
            candles: self.candles@,
            last_tick: self.last_tick,
            max_candles: self.max_candles as int,
            name: self.name@,
            seconds_per_period: self.seconds_per_period as int,
            indicators: inds_views(self.indicators@),
            chart_type: self.chart_type,
            active: self.active,
            ticks_processed: self.ticks_processed as int,
        }
    }
}

/// The period bucket a tick falls into on a chart with the given period.
pub open spec fn tick_period(spp: int, t: Tick) -> int {
    t.timestamp as int / spp
}

impl ChartModel {
    /// The chart's structural invariant.
    pub open spec fn wf(self) -> bool {
        &&& 1 <= self.seconds_per_period <= 14400
        &&& 2 <= self.max_candles <= 0x8000_0000
        &&& self.candles.len() <= self.max_candles
        &&& forall|i: int| 0 <= i < self.candles.len() ==> candle_wf(#[trigger] self.candles[i])
        &&& (self.candles.len() > 0 ==> self.candles[0].volume <= self.ticks_processed)
        &&& 0 <= self.ticks_processed <= u64::MAX
        &&& self.last_tick.prices_wf()
        &&& forall|i: int| 0 <= i < self.indicators.len() ==> {
            &&& (#[trigger] self.indicators[i]).wf()
            &&& self.indicators[i].lookback + 1 <= self.max_candles
        }
        &&& self.chart_type == ChartType::Candlestick
    }

    /// Whether the chart has accumulated its full window of candles.
    pub open spec fn has_full(self) -> bool {
        self.candles.len() == self.max_candles
    }
}

/// Every indicator recomputed against the given candle list.
pub open spec fn spec_inds_updated(inds: Seq<IndicatorModel>, candles: Seq<Candle>) -> Seq<
    IndicatorModel,
> {
    inds.map_values(|d: IndicatorModel| spec_updated_indicator(d, candles))
}

/// A new candle opened on the chart: prepended, evicting the oldest at
/// capacity, with every indicator recomputed once the chart is full.
pub open spec fn chart_open(c: ChartModel, t: Tick, id: int) -> ChartModel {
    let cs = spec_push_candle(c.candles, spec_fresh_candle(t, id as u64), c.max_candles);
    let inds = if cs.len() == c.max_candles {
        spec_inds_updated(c.indicators, cs)
    } else {
        c.indicators
    };
    ChartModel { candles: cs, indicators: inds, ..c }
}

/// One tick applied to the chart: open the first candle, or close the
/// current bar and open the next when the tick's period is newer, or
/// extend the current bar; then remember the tick and count it.
pub open spec fn chart_step(c: ChartModel, t: Tick) -> ChartModel {
    let id = tick_period(c.seconds_per_period, t);
    let c1 = if c.candles.len() == 0 {
        chart_open(c, t, id)
    } else if id > c.candles[0].id {
        let closed = ChartModel {
            candles: c.candles.update(0, spec_close_candle(c.candles[0], c.last_tick)),
            ..c
        };
        chart_open(closed, t, id)
    } else {
        ChartModel { candles: c.candles.update(0, spec_extend_candle(c.candles[0], t)), ..c }
    };
    ChartModel { last_tick: t, ticks_processed: c1.ticks_processed + 1, ..c1 }
}

/// The chart marked as actively reported, everything else untouched.
pub open spec fn spec_activated(c: ChartModel) -> ChartModel {
    ChartModel { active: true, ..c }
}

/// A tick sequence applied in order.
pub open spec fn chart_fold(c: ChartModel, ts: Seq<Tick>) -> ChartModel
    decreases ts.len(),
{
    if ts.len() == 0 {
        c
    } else {
        chart_fold(chart_step(c, ts[0]), ts.skip(1))
    }
}

/// Folding one more tick at the end is one more step after the fold.
pub proof fn lemma_chart_fold_snoc(c: ChartModel, ts: Seq<Tick>, t: Tick)
    ensures
        chart_fold(c, ts.push(t)) == chart_step(chart_fold(c, ts), t),
    decreases ts.len(),
{
    if ts.len() == 0 {
        assert(ts.push(t)[0] == t);
        assert(ts.push(t).skip(1) =~= Seq::<Tick>::empty());
    } else {
        assert(ts.push(t)[0] == ts[0]);
        assert(ts.push(t).skip(1) =~= ts.skip(1).push(t));
        lemma_chart_fold_snoc(chart_step(c, ts[0]), ts.skip(1), t);
    }
}

/// One step preserves the chart invariant.
pub proof fn lemma_chart_step_wf(c: ChartModel, t: Tick)
    requires
        c.wf(),
        t.prices_wf(),
        c.ticks_processed < u64::MAX,
    ensures
        chart_step(c, t).wf(),
        chart_step(c, t).ticks_processed == c.ticks_processed + 1,
        chart_step(c, t).candles.len() >= c.candles.len(),
        chart_step(c, t).candles.len() > 0,
        chart_step(c, t).max_candles == c.max_candles,
        chart_step(c, t).seconds_per_period == c.seconds_per_period,
{
    let id = tick_period(c.seconds_per_period, t);
    let c2 = chart_step(c, t);
    if c.candles.len() == 0 {
        assert(c2.candles =~= seq![spec_fresh_candle(t, id as u64)]);
    } else if id > c.candles[0].id {
        let closed = c.candles.update(0, spec_close_candle(c.candles[0], c.last_tick));
        assert(candle_wf(closed[0]));
        assert(forall|i: int| 0 <= i < closed.len() ==> candle_wf(#[trigger] closed[i]));
        let cs = spec_push_candle(closed, spec_fresh_candle(t, id as u64), c.max_candles);
        assert(candle_wf(cs[0]));
        assert(forall|i: int| 0 <= i < cs.len() ==> candle_wf(#[trigger] cs[i])) by {
            assert(forall|i: int| 1 <= i < cs.len() ==> cs[i] == closed[i - 1]);
        }
    } else {
        let k2 = spec_extend_candle(c.candles[0], t);
        assert(candle_wf(k2));
    }
}

/// Once a bounded chart is full it stays full: the candle count never
/// shrinks.
pub proof fn lemma_full_data_monotone(c: ChartModel, t: Tick)
    requires
        c.wf(),
    ensures
        c.has_full() ==> chart_step(c, t).has_full(),
{
}

/// `has_full` stays true under any further tick sequence.
pub proof fn lemma_full_data_monotone_fold(c: ChartModel, ts: Seq<Tick>)
    requires
        c.wf(),
        c.ticks_processed + ts.len() <= u64::MAX,
        forall|j: int| 0 <= j < ts.len() ==> (#[trigger] ts[j]).prices_wf(),
    ensures
        chart_fold(c, ts).wf(),
        c.has_full() ==> chart_fold(c, ts).has_full(),
    decreases ts.len(),
{
    if ts.len() > 0 {
        lemma_chart_step_wf(c, ts[0]);
        lemma_full_data_monotone(c, ts[0]);
        lemma_full_data_monotone_fold(chart_step(c, ts[0]), ts.skip(1));
    }
}

/// Closing a bar copies the *previous* tick's bid and ask into its close
/// fields -- not the triggering tick's.
pub proof fn lemma_close_uses_previous_tick(c: ChartModel, t: Tick)
    requires
        c.wf(),
        c.candles.len() > 0,
        tick_period(c.seconds_per_period, t) > c.candles[0].id,
    ensures
        chart_step(c, t).candles[1] == spec_close_candle(c.candles[0], c.last_tick),
        chart_step(c, t).candles[1].close_bid == c.last_tick.bid,
        chart_step(c, t).candles[1].close_ask == c.last_tick.ask,
{
    let closed = c.candles.update(0, spec_close_candle(c.candles[0], c.last_tick));
    let id = tick_period(c.seconds_per_period, t);
    let cs = spec_push_candle(closed, spec_fresh_candle(t, id as u64), c.max_candles);
    assert(cs[1] == closed[0]);
}

// ----- the bucket-aggregation law -----------------------------------------

/// A candle extended by a whole run of ticks.
pub open spec fn spec_extend_fold(k: Candle, ts: Seq<Tick>) -> Candle
    decreases ts.len(),
{
    if ts.len() == 0 {
        k
    } else {
        spec_extend_fold(spec_extend_candle(k, ts[0]), ts.skip(1))
    }
}

/// Extending a candle tick by tick aggregates exactly: the volume counts
/// every tick, and the high/low fields are the max/min of the starting
/// candle's and all the ticks' prices.
pub proof fn lemma_extend_fold_aggregates(k: Candle, ts: Seq<Tick>)
    requires
        candle_wf(k),
        k.volume + ts.len() <= u64::MAX,
        forall|j: int| 0 <= j < ts.len() ==> (#[trigger] ts[j]).prices_wf(),
    ensures
        ({
            let k2 = spec_extend_fold(k, ts);
            &&& candle_wf(k2)
            &&& k2.volume == k.volume + ts.len()
            &&& k2.open_bid == k.open_bid && k2.open_ask == k.open_ask
            &&& k2.close_bid == k.close_bid && k2.close_ask == k.close_ask
            &&& k2.id == k.id
            &&& k2.high_bid >= k.high_bid
            &&& forall|j: int| 0 <= j < ts.len() ==> k2.high_bid >= (#[trigger] ts[j]).bid
            &&& (k2.high_bid == k.high_bid || exists|j: int|
                0 <= j < ts.len() && k2.high_bid == (#[trigger] ts[j]).bid)
            &&& k2.low_bid <= k.low_bid
            &&& forall|j: int| 0 <= j < ts.len() ==> k2.low_bid <= (#[trigger] ts[j]).bid
            &&& (k2.low_bid == k.low_bid || exists|j: int|
                0 <= j < ts.len() && k2.low_bid == (#[trigger] ts[j]).bid)
            &&& k2.high_ask >= k.high_ask
            &&& forall|j: int| 0 <= j < ts.len() ==> k2.high_ask >= (#[trigger] ts[j]).ask
            &&& (k2.high_ask == k.high_ask || exists|j: int|
                0 <= j < ts.len() && k2.high_ask == (#[trigger] ts[j]).ask)
            &&& k2.low_ask <= k.low_ask
            &&& forall|j: int| 0 <= j < ts.len() ==> k2.low_ask <= (#[trigger] ts[j]).ask
            &&& (k2.low_ask == k.low_ask || exists|j: int|
                0 <= j < ts.len() && k2.low_ask == (#[trigger] ts[j]).ask)
        }),
    decreases ts.len(),
{
    if ts.len() > 0 {
        let k1 = spec_extend_candle(k, ts[0]);
        lemma_extend_fold_aggregates(k1, ts.skip(1));
        let k2 = spec_extend_fold(k, ts);
        assert(forall|j: int| 1 <= j < ts.len() ==> ts.skip(1)[j - 1] == ts[j]);
        if k2.high_bid != k.high_bid {
            if k2.high_bid == k1.high_bid && k1.high_bid == ts[0].bid {
                assert(0 <= 0 < ts.len() && k2.high_bid == ts[0].bid);
            }
        }
        if k2.low_bid != k.low_bid {
            if k2.low_bid == k1.low_bid && k1.low_bid == ts[0].bid {
                assert(0 <= 0 < ts.len() && k2.low_bid == ts[0].bid);
            }
        }
        if k2.high_ask != k.high_ask {
            if k2.high_ask == k1.high_ask && k1.high_ask == ts[0].ask {
                assert(0 <= 0 < ts.len() && k2.high_ask == ts[0].ask);
            }
        }
        if k2.low_ask != k.low_ask {
            if k2.low_ask == k1.low_ask && k1.low_ask == ts[0].ask {
                assert(0 <= 0 < ts.len() && k2.low_ask == ts[0].ask);
            }
        }
    }
}

/// While every incoming tick stays in the current bar's period bucket, the
/// chart only extends that bar: index 0 aggregates the run of ticks and
/// the rest of the chart is untouched.
pub proof fn lemma_chart_fold_same_bucket(c: ChartModel, ts: Seq<Tick>)
    requires
        c.wf(),
        c.candles.len() > 0,
        c.ticks_processed + ts.len() <= u64::MAX,
        forall|j: int| 0 <= j < ts.len() ==> (#[trigger] ts[j]).prices_wf(),
        forall|j: int| 0 <= j < ts.len()
            ==> tick_period(c.seconds_per_period, #[trigger] ts[j]) == c.candles[0].id,
    ensures
        ({
            let c2 = chart_fold(c, ts);
            &&& c2.wf()
            &&& c2.candles =~= c.candles.update(0, spec_extend_fold(c.candles[0], ts))
            &&& c2.ticks_processed == c.ticks_processed + ts.len()
            &&& c2.last_tick == (if ts.len() > 0 { ts.last() } else { c.last_tick })
            &&& c2.indicators == c.indicators
            &&& c2.max_candles == c.max_candles
            &&& c2.seconds_per_period == c.seconds_per_period
        }),
    decreases ts.len(),
{
    if ts.len() == 0 {
        assert(c.candles.update(0, spec_extend_fold(c.candles[0], ts)) =~= c.candles);
    } else {
        let c1 = chart_step(c, ts[0]);
        lemma_chart_step_wf(c, ts[0]);
        assert(c1.candles =~= c.candles.update(0, spec_extend_candle(c.candles[0], ts[0])));
        assert(forall|j: int| 1 <= j < ts.len() ==> ts.skip(1)[j - 1] == ts[j]);
        lemma_chart_fold_same_bucket(c1, ts.skip(1));
        let c2 = chart_fold(c, ts);
        assert(c2.candles =~= c1.candles.update(0, spec_extend_fold(c1.candles[0], ts.skip(1))));
        assert(spec_extend_fold(c.candles[0], ts)
            == spec_extend_fold(spec_extend_candle(c.candles[0], ts[0]), ts.skip(1)));
        assert(c2.candles =~= c.candles.update(0, spec_extend_fold(c.candles[0], ts)));
        if ts.len() == 1 {
            assert(c2.last_tick == ts[0]);
            assert(ts.last() == ts[0]);
        } else {
            assert(ts.skip(1).last() == ts.last());
        }
    }
}

/// For all ticks within one period bucket, the bar's high/low bid and ask
/// equal the max/min over every tick observed in the bucket, and the
/// volume equals the tick count.
pub proof fn lemma_bucket_aggregation(c: ChartModel, ts: Seq<Tick>)
    requires
        c.wf(),
        c.candles.len() > 0,
        c.ticks_processed + ts.len() <= u64::MAX,
        forall|j: int| 0 <= j < ts.len() ==> (#[trigger] ts[j]).prices_wf(),
        forall|j: int| 0 <= j < ts.len()
            ==> tick_period(c.seconds_per_period, #[trigger] ts[j]) == c.candles[0].id,
    ensures
        ({
            let k = c.candles[0];
            let k2 = chart_fold(c, ts).candles[0];
            &&& k2.volume == k.volume + ts.len()
            &&& k2.high_bid >= k.high_bid
            &&& forall|j: int| 0 <= j < ts.len() ==> k2.high_bid >= (#[trigger] ts[j]).bid
            &&& (k2.high_bid == k.high_bid || exists|j: int|
                0 <= j < ts.len() && k2.high_bid == (#[trigger] ts[j]).bid)
            &&& k2.low_bid <= k.low_bid
            &&& forall|j: int| 0 <= j < ts.len() ==> k2.low_bid <= (#[trigger] ts[j]).bid
            &&& (k2.low_bid == k.low_bid || exists|j: int|
                0 <= j < ts.len() && k2.low_bid == (#[trigger] ts[j]).bid)
            &&& k2.high_ask >= k.high_ask
            &&& forall|j: int| 0 <= j < ts.len() ==> k2.high_ask >= (#[trigger] ts[j]).ask
            &&& (k2.high_ask == k.high_ask || exists|j: int|
                0 <= j < ts.len() && k2.high_ask == (#[trigger] ts[j]).ask)
            &&& k2.low_ask <= k.low_ask
            &&& forall|j: int| 0 <= j < ts.len() ==> k2.low_ask <= (#[trigger] ts[j]).ask
            &&& (k2.low_ask == k.low_ask || exists|j: int|
                0 <= j < ts.len() && k2.low_ask == (#[trigger] ts[j]).ask)
        }),
{
    lemma_chart_fold_same_bucket(c, ts);
    lemma_extend_fold_aggregates(c.candles[0], ts);
}

// ----- executable chart ----------------------------------------------------

impl Chart {
    /// A new chart of the given type; `max_candles` completed candles are
    /// kept beside the in-progress bar at index 0.
    pub fn new(name: Vec<u8>, period: &[u8], max_candles: usize, ct: ChartType) -> (r: Result<
        Chart,
        ConfigError,
    >)
        requires
            1 <= max_candles <= 0x7FFF_FFFF,
            ct == ChartType::Candlestick,
        ensures
            r is Ok <==> spec_period_from(period@) is Some,
            r is Ok ==> {
                let c = r->Ok_0@;
                &&& c.wf()
                &&& c.candles.len() == 0
                &&& c.candles == Seq::<Candle>::empty()
                &&& c.last_tick == crate::tick::spec_empty_tick()
                &&& c.max_candles == max_candles + 1
                &&& c.name == name@
                &&& c.seconds_per_period
                    == spec_seconds_in_period(spec_period_from(period@)->Some_0)
                &&& c.indicators.len() == 0
                &&& c.active == false
                &&& c.ticks_processed == 0
                &&& c.chart_type == ct
            },
    {
        let period_type = match period_from_string(period) {
            Ok(p) => p,
            Err(e) => {
                return Err(e);
            },
        };
        let c = Chart {
            candles: Vec::new(),
            last_tick: Tick::empty_tick(),
            max_candles: max_candles + 1,
            name,
            seconds_per_period: seconds_in_period(period_type),
            indicators: Vec::new(),
            chart_type: ct,
            active: false,
            ticks_processed: 0,
        };
        proof {
            assert(inds_views(c.indicators@) =~= Seq::<IndicatorModel>::empty());
        }
        Ok(c)
    }

    /// A new candlestick chart.
    pub fn new_candlestick_chart(name: Vec<u8>, period: &[u8], max_candles: usize) -> (r: Result<
        Chart,
        ConfigError,
    >)
        requires
            1 <= max_candles <= 0x7FFF_FFFF,
        ensures
            r is Ok <==> spec_period_from(period@) is Some,
            r is Ok ==> {
                let c = r->Ok_0@;
                &&& c.wf()
                &&& c.candles.len() == 0
                &&& c.candles == Seq::<Candle>::empty()
                &&& c.last_tick == crate::tick::spec_empty_tick()
                &&& c.max_candles == max_candles + 1
                &&& c.name == name@
                &&& c.seconds_per_period
                    == spec_seconds_in_period(spec_period_from(period@)->Some_0)
                &&& c.indicators.len() == 0
                &&& c.active == false
                &&& c.ticks_processed == 0
                &&& c.chart_type == ChartType::Candlestick
            },
    {
        Chart::new(name, period, max_candles, ChartType::Candlestick)
    }

    /// Attaches one more indicator; its lookback must fit the chart's
    /// completed-candle window.
    pub fn attach_indicator(&mut self, indi: Indicator)
        requires
            old(self)@.wf(),
            indi@.wf(),
            indi@.lookback + 1 <= old(self)@.max_candles,
        ensures
            final(self)@ == (ChartModel {
                indicators: old(self)@.indicators.push(indi@),
                ..old(self)@
            }),
            final(self)@.wf(),
    {
        self.indicators.push(indi);
        proof {
            assert(inds_views(self.indicators@) =~= inds_views(old(self).indicators@).push(
                self.indicators@.last()@));
            assert(self@ =~= (ChartModel {
                indicators: old(self)@.indicators.push(self.indicators@.last()@),
                ..old(self)@
            }));
        }
    }

    /// Whether the chart holds its full window: the configured count plus
    /// the in-progress bar.
    pub fn has_full_data(&self) -> (r: bool)
        ensures
            r == self@.has_full(),
    {
        self.candles.len() == self.max_candles
    }

    /// Marks the chart as actively reported to the strategy.
    pub fn set_active(&mut self)
        ensures
            final(self)@ == (ChartModel { active: true, ..old(self)@ }),
    {
        self.active = true;
        proof {
            assert(self@ =~= (ChartModel { active: true, ..old(self)@ }));
        }
    }

    /// The monotonically increasing processed-tick counter.
    pub fn get_ticks_processed(&self) -> (r: u64)
        ensures
            r == self@.ticks_processed,
    {
        self.ticks_processed
    }

    /// Opens a new candle for the tick at index 0, evicting the oldest at
    /// capacity, and recomputes every indicator once the chart is full.
    fn create_new_candle_from_tick(&mut self, id: u64, tick: &Tick)
        requires
            old(self)@.wf(),
            tick.prices_wf(),
        ensures
            final(self)@ == chart_open(old(self)@, *tick, id as int),
            final(self).last_tick == old(self).last_tick,
            final(self).ticks_processed == old(self).ticks_processed,
    {
        let ghost pre = self@;
        if self.candles.len() >= self.max_candles {
            self.candles.pop();
        }
        let candle = Candle {
            open_bid: tick.bid,
            open_ask: tick.ask,
            close_bid: 0,
            close_ask: 0,
            high_bid: tick.bid,
            high_ask: tick.ask,
            low_bid: tick.bid,
            low_ask: tick.ask,
            volume: 1,
            id,
        };
        self.candles.insert(0, candle);
        proof {
            assert(self.candles@ =~= spec_push_candle(pre.candles, spec_fresh_candle(*tick, id),
                pre.max_candles));
        }
        let ghost cs = self.candles@;
        if self.has_full_data() {
            let ghost pre_inds = self.indicators@;
            proof {
                assert forall|j: int| 0 <= j < pre_inds.len() implies (#[trigger] pre_inds[j])@.wf()
                    && pre_inds[j]@.lookback + 1 <= pre.max_candles by {
                    assert(pre.indicators[j] == pre_inds[j]@);
                }
            }
            let mut i: usize = 0;
            while i < self.indicators.len()
                invariant
                    i <= self.indicators@.len(),
                    self.indicators@.len() == pre_inds.len(),
                    self.candles@ == cs,
                    cs.len() == pre.max_candles,
                    self.max_candles == pre.max_candles,
                    self.last_tick == pre.last_tick,
                    self.ticks_processed == pre.ticks_processed,
                    self.name@ == pre.name,
                    self.seconds_per_period == pre.seconds_per_period,
                    self.chart_type == pre.chart_type,
                    self.active == pre.active,
                    forall|j: int| 0 <= j < cs.len() ==> candle_wf(#[trigger] cs[j]),
                    forall|j: int| 0 <= j < pre_inds.len() ==> (#[trigger] pre_inds[j])@.wf()
                        && pre_inds[j]@.lookback + 1 <= pre.max_candles,
                    forall|j: int| i <= j < pre_inds.len()
                        ==> #[trigger] self.indicators@[j] == pre_inds[j],
                    forall|j: int| 0 <= j < i ==> #[trigger] self.indicators@[j]@
                        == spec_updated_indicator(pre_inds[j]@, cs),
                decreases self.indicators@.len() - i,
            {
                let ghost prev = self.indicators@;
                let mut ind = self.indicators.remove(i);
                ind.update(&self.candles, self.active);
                self.indicators.insert(i, ind);
                proof {
                    assert(self.indicators@ =~= prev.update(i as int, self.indicators@[i as int]));
                }
                i += 1;
            }
            proof {
                assert(inds_views(self.indicators@) =~= spec_inds_updated(inds_views(pre_inds),
                    cs));
                assert(self@ =~= chart_open(pre, *tick, id as int));
            }
        } else {
            proof {
                assert(self@ =~= chart_open(pre, *tick, id as int));
            }
        }
    }

    /// Folds one more tick of the current period into the bar at index 0.
    fn update_latest_candle(&mut self, tick: &Tick)
        requires
            old(self)@.wf(),
            old(self)@.candles.len() > 0,
            old(self)@.ticks_processed < u64::MAX,
            tick.prices_wf(),
        ensures
            final(self)@ == (ChartModel {
                candles: old(self)@.candles.update(0, spec_extend_candle(old(self)@.candles[0],
                    *tick)),
                ..old(self)@
            }),
    {
        let mut candle = self.candles[0];
        if tick.bid > candle.high_bid {
            candle.high_bid = tick.bid;
        } else if tick.bid < candle.low_bid {
            candle.low_bid = tick.bid;
        }
        if tick.ask > candle.high_ask {
            candle.high_ask = tick.ask;
        } else if tick.ask < candle.low_ask {
            candle.low_ask = tick.ask;
        }
        candle.volume = candle.volume + 1;
        self.candles.set(0, candle);
        proof {
            assert(candle == spec_extend_candle(old(self)@.candles[0], *tick));
            assert(self@ =~= (ChartModel {
                candles: old(self)@.candles.update(0, spec_extend_candle(old(self)@.candles[0],
                    *tick)),
                ..old(self)@
            }));
        }
    }

    /// The chart's only mutator: applies one tick, exactly as the
    /// mathematical step function says.
    pub fn process_tick(&mut self, tick: &Tick)
        requires
            old(self)@.wf(),
            old(self)@.ticks_processed < u64::MAX,
            tick.prices_wf(),
        ensures
            final(self)@ == chart_step(old(self)@, *tick),
            final(self)@.wf(),
    {
        proof {
            lemma_chart_step_wf(old(self)@, *tick);
        }
        let id: u64 = tick.timestamp / self.seconds_per_period;
        let num_candles = self.candles.len();
        if num_candles == 0 {
            self.create_new_candle_from_tick(id, tick);
        } else {
            if id > self.candles[0].id {
                let mut closed = self.candles[0];
                closed.close_bid = self.last_tick.bid;
                closed.close_ask = self.last_tick.ask;
                self.candles.set(0, closed);
                proof {
                    assert(closed == spec_close_candle(old(self)@.candles[0],
                        old(self)@.last_tick));
                    assert(self@.wf());
                }
                self.create_new_candle_from_tick(id, tick);
            } else {
                self.update_latest_candle(tick);
            }
        }
        self.last_tick = *tick;
        self.ticks_processed = self.ticks_processed + 1;
        proof {
            assert(self@ =~= chart_step(old(self)@, *tick));
        }
    }
}

/// A deep copy of a whole chart set: each trial line of execution gets
/// its own, so no two trials share mutable candle state.
pub fn clone_charts(charts: &Vec<Chart>) -> (r: Vec<Chart>)
    ensures
        r@.len() == charts@.len(),
        forall|i: int| 0 <= i < charts@.len() ==> (#[trigger] r@[i])@ == charts@[i]@,
        charts_views(r@) == charts_views(charts@),
{
    let mut out: Vec<Chart> = Vec::new();
    let mut i: usize = 0;
    while i < charts.len()
        invariant
            i <= charts@.len(),
            out@.len() == i,
            forall|j: int| 0 <= j < i ==> (#[trigger] out@[j])@ == charts@[j]@,
        decreases charts@.len() - i,
    {
        let c = charts[i].clone();
        out.push(c);
        i += 1;
    }
    proof {
        assert forall|j: int| 0 <= j < charts@.len() implies charts_views(out@)[j]
            == charts_views(charts@)[j] by {
            assert(charts_views(out@)[j] == out@[j]@);
            assert(charts_views(charts@)[j] == charts@[j]@);
        }
        assert(charts_views(out@) =~= charts_views(charts@));
    }
    out
}

/// An explicit deep copy: the clone's mathematical value equals the
/// original's, which is what lets the walk-forward driver keep pristine
/// chart copies and give each optimizer trial its own mutation line.
impl Clone for Chart {
    fn clone(&self) -> (r: Chart)
        ensures
            r@ == self@,
    {
        let mut candles: Vec<Candle> = Vec::new();
        let mut i: usize = 0;
        while i < self.candles.len()
            invariant
                i <= self.candles@.len(),
                candles@ =~= self.candles@.subrange(0, i as int),
            decreases self.candles@.len() - i,
        {
            let k = self.candles[i];
            candles.push(k);
            i += 1;
        }
        let mut name: Vec<u8> = Vec::new();
        let mut j: usize = 0;
        while j < self.name.len()
            invariant
                j <= self.name@.len(),
                name@ =~= self.name@.subrange(0, j as int),
            decreases self.name@.len() - j,
        {
            let b = self.name[j];
            name.push(b);
            j += 1;
        }
        let mut indicators: Vec<Indicator> = Vec::new();
        let mut m: usize = 0;
        while m < self.indicators.len()
            invariant
                m <= self.indicators@.len(),
                indicators@.len() == m,
                forall|k: int| 0 <= k < m ==> (#[trigger] indicators@[k])@
                    == self.indicators@[k]@,
            decreases self.indicators@.len() - m,
        {
            let d = self.indicators[m].clone();
            indicators.push(d);
            m += 1;
        }
        proof {
            assert forall|k: int| 0 <= k < indicators@.len() implies inds_views(indicators@)[k]
                == inds_views(self.indicators@)[k] by {
                assert(inds_views(indicators@)[k] == indicators@[k]@);
                assert(inds_views(self.indicators@)[k] == self.indicators@[k]@);
            }
            assert(inds_views(indicators@) =~= inds_views(self.indicators@));
        }
        let r = Chart {
            candles,
            last_tick: self.last_tick,
            max_candles: self.max_candles,
            name,
            seconds_per_period: self.seconds_per_period,
            indicators,
            chart_type: self.chart_type,
            active: self.active,
            ticks_processed: self.ticks_processed,
        };
        proof {
            assert(r.candles@ =~= self.candles@);
            assert(r.name@ =~= self.name@);
            assert(inds_views(r.indicators@) =~= inds_views(self.indicators@));
            assert(r@ =~= self@);
        }
        r
    }
}

} // verus!
