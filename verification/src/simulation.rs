use vstd::prelude::*;

use crate::chart::{chart_step, charts_views, Chart, ChartModel};
use crate::errors::TradeError;
use crate::ratio::{spec_dd_breach, spec_dd_le, spec_dd_lt, dd_breach, dd_lt, Drawdown, Ratio};
use crate::tick::{spec_tick_csv, Tick};
use crate::trade::{
    push_bool, spec_bool_bytes, spec_close_trade, spec_new_trade, spec_trade_csv, trades_views,
    Trade, TradeDirection, TradeModel, PROFIT_MAX,
};
use crate::util::{dec_digits, push_u64_dec};

verus! {

/// The starting account balance, in millipips (10000 whole pips, the
/// fixed deposit of the engine).
pub const DEPOSIT_MP: i64 = 10_000_000;

/// The most trades one simulation will book; keeps every account sum well
/// inside an i64.
pub const TRADES_MAX: usize = 10_000_000;

/// A bound on any equity or balance value a well-formed simulation can
/// show: deposit plus `TRADES_MAX` trades at the extreme profit.
pub const EQ_BOUND: i64 = 2_000_000_000_000_000_000;

/// The hard drawdown limit, in percent: a run aborts when the worst
/// drawdown falls below this.
pub const DRAWDOWN_LIMIT: i64 = -10;

/// A monotonic id source, threaded through the constructors in place of
/// process-wide counters, so that runs are reproducible.
pub struct IdAllocator {
    pub next: u64,
}

impl IdAllocator {
    pub fn new() -> (r: IdAllocator)
        ensures
            r.next == 1,
    {
        IdAllocator { next: 1 }
    }

    pub fn next_id(&mut self) -> (r: u64)
        requires
            old(self).next < u64::MAX,
        ensures
            r == old(self).next,
            final(self).next == old(self).next + 1,
    {
        let id = self.next;
        self.next = self.next + 1;
        id
    }
}

/// The sum of the trades' profits, in millipips.
pub open spec fn sum_profits(ts: Seq<TradeModel>) -> int
    decreases ts.len(),
{
    if ts.len() == 0 {
        0
    } else {
        sum_profits(ts.drop_last()) + ts.last().profit()
    }
}

/// No sum of at most `TRADES_MAX` trade profits leaves the equity bound.
pub proof fn lemma_trades_sum_fits(n: int)
    by (nonlinear_arith)
    requires
        0 <= n <= TRADES_MAX,
    ensures
        n * PROFIT_MAX <= 1_000_000_000_000_000_000,
{
}

pub proof fn lemma_sum_profits_bound(ts: Seq<TradeModel>)
    requires
        forall|i: int| 0 <= i < ts.len() ==> (#[trigger] ts[i]).wf(),
    ensures
        -(ts.len() * PROFIT_MAX) <= sum_profits(ts) <= ts.len() * PROFIT_MAX,
    decreases ts.len(),
{
    if ts.len() > 0 {
        assert(forall|i: int| 0 <= i < ts.len() - 1 ==> ts.drop_last()[i] == ts[i]);
        lemma_sum_profits_bound(ts.drop_last());
        crate::trade::lemma_trade_profit_bound(ts.last());
    }
}

/// The trades with the given tick's prices folded in as one more history
/// entry each.
pub open spec fn spec_record_tick(ts: Seq<TradeModel>, k: Tick) -> Seq<TradeModel> {
    ts.map_values(|t: TradeModel| TradeModel { ticks: t.ticks.push(k), ..t })
}

/// Every trade closed against the given tick.
pub open spec fn spec_close_all(ts: Seq<TradeModel>, k: Tick) -> Seq<TradeModel> {
    ts.map_values(|t: TradeModel| spec_close_trade(t, k))
}

/// The still-open trades, in order.
pub open spec fn spec_open_part(ts: Seq<TradeModel>) -> Seq<TradeModel>
    decreases ts.len(),
{
    if ts.len() == 0 {
        Seq::empty()
    } else {
        spec_open_part(ts.drop_last()) + (if ts.last().open {
            seq![ts.last()]
        } else {
            Seq::empty()
        })
    }
}

/// The closed trades, in order.
pub open spec fn spec_closed_part(ts: Seq<TradeModel>) -> Seq<TradeModel>
    decreases ts.len(),
{
    if ts.len() == 0 {
        Seq::empty()
    } else {
        spec_closed_part(ts.drop_last()) + (if ts.last().open {
            Seq::empty()
        } else {
            seq![ts.last()]
        })
    }
}

pub proof fn lemma_partition_len(ts: Seq<TradeModel>)
    ensures
        spec_open_part(ts).len() + spec_closed_part(ts).len() == ts.len(),
        spec_open_part(ts).len() <= ts.len(),
        spec_closed_part(ts).len() <= ts.len(),
    decreases ts.len(),
{
    if ts.len() > 0 {
        lemma_partition_len(ts.drop_last());
    }
}

proof fn lemma_parts_all_closed(ts: Seq<TradeModel>)
    requires
        forall|i: int| 0 <= i < ts.len() ==> !(#[trigger] ts[i]).open,
    ensures
        spec_open_part(ts) =~= Seq::<TradeModel>::empty(),
        spec_closed_part(ts) =~= ts,
    decreases ts.len(),
{
    if ts.len() > 0 {
        assert(forall|i: int| 0 <= i < ts.len() - 1 ==> ts.drop_last()[i] == ts[i]);
        lemma_parts_all_closed(ts.drop_last());
        assert(spec_closed_part(ts) =~= ts.drop_last() + seq![ts.last()]);
        assert(ts.drop_last() + seq![ts.last()] =~= ts);
    }
}

/// The number of long trades among the given ones.
pub open spec fn spec_count_long(ts: Seq<TradeModel>) -> int
    decreases ts.len(),
{
    if ts.len() == 0 {
        0
    } else {
        spec_count_long(ts.drop_last()) + (if ts.last().is_long() {
            1int
        } else {
            0int
        })
    }
}

pub proof fn lemma_count_long_le(ts: Seq<TradeModel>)
    ensures
        0 <= spec_count_long(ts) <= ts.len(),
    decreases ts.len(),
{
    if ts.len() > 0 {
        lemma_count_long_le(ts.drop_last());
    }
}

// ===== SIMULATION ==========================================================

/// The trade and account bookkeeping engine: owns the open and closed
/// trades and the charts, tracks balance, equity and drawdown, and
/// enforces the hard drawdown limit.
pub struct Simulation {
    pub id: u64,
    pub in_sample: bool,
    pub jpy_base: bool,
    pub charts: Vec<Chart>,
    /// Starting balance, in millipips.
    pub deposit: i64,
    /// The running equity high-water mark (raw, unadjusted millipips).
    pub last_equity_high: i64,
    /// The equity observed since the high was set.
    pub last_equity_low: i64,
    /// The all-time worst drawdown.
    pub highest_drawdown: Drawdown,
    /// The percent limit below which a run aborts; always negative.
    pub drawdown_limit: i64,
    pub open_trades: Vec<Trade>,
    pub closed_trades: Vec<Trade>,
    /// The next trade id to hand out.
    pub next_trade_id: u64,
}

impl Simulation {
    /// Everything but the open flags of the open set: holds also in the
    /// middle of the close-all sweep.
    pub open spec fn wf_base(self) -> bool {
        &&& self.deposit == DEPOSIT_MP
        &&& self.drawdown_limit < 0
        &&& self.open_trades@.len() + self.closed_trades@.len() <= TRADES_MAX
        &&& forall|i: int| 0 <= i < self.open_trades@.len()
            ==> (#[trigger] self.open_trades@[i])@.wf()
        &&& forall|i: int| 0 <= i < self.closed_trades@.len() ==> {
            &&& (#[trigger] self.closed_trades@[i])@.wf()
            &&& !self.closed_trades@[i]@.open
        }
        &&& 1 <= self.last_equity_high <= EQ_BOUND
        &&& -EQ_BOUND <= self.last_equity_low <= EQ_BOUND
        &&& self.highest_drawdown.wf()
        &&& self.highest_drawdown.high <= EQ_BOUND
        &&& -2 * EQ_BOUND <= self.highest_drawdown.diff
        &&& forall|i: int| 0 <= i < self.charts@.len() ==> (#[trigger] self.charts@[i])@.wf()
    }

    /// The simulation invariant: additionally, every trade in the open
    /// set is actually open.
    pub open spec fn wf(self) -> bool {
        &&& self.wf_base()
        &&& forall|i: int| 0 <= i < self.open_trades@.len()
            ==> (#[trigger] self.open_trades@[i])@.open
    }

    /// 100 when the quote currency is quoted to 3 decimals, else 1: the
    /// fixed currency-quote adjustment.
    pub open spec fn spec_scale(self) -> int {
        if self.jpy_base {
            100
        } else {
            1
        }
    }

    /// Raw balance: deposit plus the closed trades' profits, millipips.
    pub open spec fn spec_balance_num(self) -> int {
        self.deposit + sum_profits(trades_views(self.closed_trades@))
    }

    /// Raw equity: balance plus the open trades' unrealized profits.
    pub open spec fn spec_equity_num(self) -> int {
        self.spec_balance_num() + sum_profits(trades_views(self.open_trades@))
    }

    /// Raw profit numerator: balance minus deposit, over the same scale.
    pub open spec fn spec_profit_num(self) -> int {
        self.spec_balance_num() - self.deposit * self.spec_scale()
    }

    /// A new simulation over the given charts.  The id comes from the
    /// caller's allocator; trade ids are handed out locally from 1.
    pub fn new(charts: Vec<Chart>, in_sample: bool, jpy_base: bool, id: u64) -> (r: Simulation)
        requires
            forall|i: int| 0 <= i < charts@.len() ==> (#[trigger] charts@[i])@.wf(),
        ensures
            r.wf(),
            r.id == id,
            r.in_sample == in_sample,
            r.jpy_base == jpy_base,
            r.charts@ == charts@,
            r.deposit == DEPOSIT_MP,
            r.last_equity_high == DEPOSIT_MP,
            r.last_equity_low == DEPOSIT_MP,
            r.highest_drawdown == (Drawdown { diff: 0, high: 1 }),
            r.drawdown_limit == DRAWDOWN_LIMIT,
            r.open_trades@.len() == 0,
            r.closed_trades@.len() == 0,
            r.next_trade_id == 1,
    {
        Simulation {
            id,
            in_sample,
            jpy_base,
            charts,
            deposit: DEPOSIT_MP,
            last_equity_high: DEPOSIT_MP,
            last_equity_low: DEPOSIT_MP,
            highest_drawdown: Drawdown::zero(),
            drawdown_limit: DRAWDOWN_LIMIT,
            open_trades: Vec::new(),
            closed_trades: Vec::new(),
            next_trade_id: 1,
        }
    }

    /// Marks every chart as actively reported to the strategy.
    pub fn activate_charts(&mut self)
        requires
            old(self).wf(),
        ensures
            final(self).wf(),
            final(self).charts@.len() == old(self).charts@.len(),
            forall|i: int| 0 <= i < old(self).charts@.len()
                ==> (#[trigger] final(self).charts@[i])@ == (ChartModel {
                    active: true,
                    ..old(self).charts@[i]@
                }),
            final(self).open_trades@ == old(self).open_trades@,
            final(self).closed_trades@ == old(self).closed_trades@,
            final(self).last_equity_high == old(self).last_equity_high,
            final(self).last_equity_low == old(self).last_equity_low,
            final(self).highest_drawdown == old(self).highest_drawdown,
            final(self).id == old(self).id && final(self).in_sample == old(self).in_sample,
            final(self).jpy_base == old(self).jpy_base,
            final(self).next_trade_id == old(self).next_trade_id,
            final(self).deposit == old(self).deposit,
            final(self).drawdown_limit == old(self).drawdown_limit,
    {
        let mut i: usize = 0;
        while i < self.charts.len()
            invariant
                i <= self.charts@.len(),
                self.charts@.len() == old(self).charts@.len(),
                forall|j: int| 0 <= j < i ==> (#[trigger] self.charts@[j])@ == (ChartModel {
                    active: true,
                    ..old(self).charts@[j]@
                }),
                forall|j: int| i <= j < self.charts@.len()
                    ==> #[trigger] self.charts@[j] == old(self).charts@[j],
                self.open_trades@ == old(self).open_trades@,
                self.closed_trades@ == old(self).closed_trades@,
                self.last_equity_high == old(self).last_equity_high,
                self.last_equity_low == old(self).last_equity_low,
                self.highest_drawdown == old(self).highest_drawdown,
                self.id == old(self).id && self.in_sample == old(self).in_sample,
                self.jpy_base == old(self).jpy_base,
                self.deposit == old(self).deposit,
                self.drawdown_limit == old(self).drawdown_limit,
                self.next_trade_id == old(self).next_trade_id,
                old(self).wf(),
            decreases self.charts@.len() - i,
        {
            let ghost prev = self.charts@;
            let mut c = self.charts.remove(i);
            c.set_active();
            self.charts.insert(i, c);
            proof {
                assert(self.charts@ =~= prev.update(i as int, self.charts@[i as int]));
            }
            i += 1;
        }
        proof {
            assert(final(self).wf()) by {
                assert(forall|j: int| 0 <= j < self.charts@.len()
                    ==> (#[trigger] self.charts@[j])@.wf());
            }
        }
    }

    /// Advances every chart by one tick.
    pub fn update_charts(&mut self, tick: &Tick)
        requires
            old(self).wf(),
            tick.prices_wf(),
            forall|i: int| 0 <= i < old(self).charts@.len()
                ==> (#[trigger] old(self).charts@[i])@.ticks_processed < u64::MAX,
        ensures
            final(self).wf(),
            final(self).charts@.len() == old(self).charts@.len(),
            forall|i: int| 0 <= i < old(self).charts@.len()
                ==> (#[trigger] final(self).charts@[i])@ == chart_step(old(self).charts@[i]@,
                    *tick),
            final(self).open_trades@ == old(self).open_trades@,
            final(self).closed_trades@ == old(self).closed_trades@,
            final(self).last_equity_high == old(self).last_equity_high,
            final(self).last_equity_low == old(self).last_equity_low,
            final(self).highest_drawdown == old(self).highest_drawdown,
            final(self).id == old(self).id && final(self).in_sample == old(self).in_sample,
            final(self).jpy_base == old(self).jpy_base,
            final(self).next_trade_id == old(self).next_trade_id,
            final(self).deposit == old(self).deposit,
            final(self).drawdown_limit == old(self).drawdown_limit,
    {
        let mut i: usize = 0;
        while i < self.charts.len()
            invariant
                i <= self.charts@.len(),
                self.charts@.len() == old(self).charts@.len(),
                tick.prices_wf(),
                forall|j: int| 0 <= j < i ==> (#[trigger] self.charts@[j])@ == chart_step(
                    old(self).charts@[j]@, *tick),
                forall|j: int| 0 <= j < i ==> (#[trigger] self.charts@[j])@.wf(),
                forall|j: int| i <= j < self.charts@.len()
                    ==> #[trigger] self.charts@[j] == old(self).charts@[j],
                self.open_trades@ == old(self).open_trades@,
                self.closed_trades@ == old(self).closed_trades@,
                self.last_equity_high == old(self).last_equity_high,
                self.last_equity_low == old(self).last_equity_low,
                self.highest_drawdown == old(self).highest_drawdown,
                self.id == old(self).id && self.in_sample == old(self).in_sample,
                self.jpy_base == old(self).jpy_base,
                self.deposit == old(self).deposit,
                self.drawdown_limit == old(self).drawdown_limit,
                self.next_trade_id == old(self).next_trade_id,
                old(self).wf(),
                forall|j: int| 0 <= j < old(self).charts@.len()
                    ==> (#[trigger] old(self).charts@[j])@.ticks_processed < u64::MAX,
            decreases self.charts@.len() - i,
        {
            let ghost prev = self.charts@;
            let mut c = self.charts.remove(i);
            proof {
                crate::chart::lemma_chart_step_wf(c@, *tick);
            }
            c.process_tick(tick);
            self.charts.insert(i, c);
            proof {
                assert(self.charts@ =~= prev.update(i as int, self.charts@[i as int]));
            }
            i += 1;
        }
    }

    /// True when every attached chart is fully populated: only then may
    /// the strategy trade.
    pub fn can_trade(&self) -> (r: bool)
        ensures
            r == (forall|i: int| 0 <= i < self.charts@.len()
                ==> (#[trigger] self.charts@[i])@.has_full()),
    {
        let mut i: usize = 0;
        while i < self.charts.len()
            invariant
                i <= self.charts@.len(),
                forall|j: int| 0 <= j < i ==> (#[trigger] self.charts@[j])@.has_full(),
            decreases self.charts@.len() - i,
        {
            if !self.charts[i].has_full_data() {
                return false;
            }
            i += 1;
        }
        true
    }

    /// Appends the tick to every open trade's history.
    pub fn record_tick_onto_trades(&mut self, tick: &Tick)
        requires
            old(self).wf(),
            tick.wf(),
        ensures
            final(self).wf(),
            trades_views(final(self).open_trades@) == spec_record_tick(
                trades_views(old(self).open_trades@), *tick),
            final(self).open_trades@.len() == old(self).open_trades@.len(),
            final(self).closed_trades@ == old(self).closed_trades@,
            final(self).charts@ == old(self).charts@,
            final(self).last_equity_high == old(self).last_equity_high,
            final(self).last_equity_low == old(self).last_equity_low,
            final(self).highest_drawdown == old(self).highest_drawdown,
            final(self).id == old(self).id && final(self).in_sample == old(self).in_sample,
            final(self).jpy_base == old(self).jpy_base,
            final(self).next_trade_id == old(self).next_trade_id,
            final(self).deposit == old(self).deposit,
            final(self).drawdown_limit == old(self).drawdown_limit,
    {
        let mut i: usize = 0;
        while i < self.open_trades.len()
            invariant
                i <= self.open_trades@.len(),
                self.open_trades@.len() == old(self).open_trades@.len(),
                tick.wf(),
                forall|j: int| 0 <= j < i ==> (#[trigger] self.open_trades@[j])@ == (TradeModel {
                    ticks: old(self).open_trades@[j]@.ticks.push(*tick),
                    ..old(self).open_trades@[j]@
                }),
                forall|j: int| i <= j < self.open_trades@.len()
                    ==> #[trigger] self.open_trades@[j] == old(self).open_trades@[j],
                self.closed_trades@ == old(self).closed_trades@,
                self.charts@ == old(self).charts@,
                self.last_equity_high == old(self).last_equity_high,
                self.last_equity_low == old(self).last_equity_low,
                self.highest_drawdown == old(self).highest_drawdown,
                self.id == old(self).id && self.in_sample == old(self).in_sample,
                self.jpy_base == old(self).jpy_base,
                self.deposit == old(self).deposit,
                self.drawdown_limit == old(self).drawdown_limit,
                self.next_trade_id == old(self).next_trade_id,
                old(self).wf(),
            decreases self.open_trades@.len() - i,
        {
            let ghost prev = self.open_trades@;
            let mut t = self.open_trades.remove(i);
            t.record_tick(*tick);
            self.open_trades.insert(i, t);
            proof {
                assert(self.open_trades@ =~= prev.update(i as int, self.open_trades@[i as int]));
            }
            i += 1;
        }
        proof {
            assert(trades_views(self.open_trades@) =~= spec_record_tick(
                trades_views(old(self).open_trades@), *tick));
            assert forall|j: int| 0 <= j < self.open_trades@.len() implies
                (#[trigger] self.open_trades@[j])@.wf() && self.open_trades@[j]@.open by {
                assert(old(self).open_trades@[j]@.wf());
            }
        }
    }

    fn record_new_trade(&mut self, trade: Trade)
        ensures
            final(self).open_trades@ == old(self).open_trades@.push(trade),
            final(self).closed_trades@ == old(self).closed_trades@,
            final(self).charts@ == old(self).charts@,
            final(self).last_equity_high == old(self).last_equity_high,
            final(self).last_equity_low == old(self).last_equity_low,
            final(self).highest_drawdown == old(self).highest_drawdown,
            final(self).id == old(self).id && final(self).in_sample == old(self).in_sample,
            final(self).jpy_base == old(self).jpy_base,
            final(self).deposit == old(self).deposit,
            final(self).drawdown_limit == old(self).drawdown_limit,
            final(self).next_trade_id == old(self).next_trade_id,
    {
        self.open_trades.push(trade);
    }

    /// Opens a long trade on the tick, under the next local trade id.
    pub fn open_long_trade(&mut self, tick: &Tick)
        requires
            old(self).wf(),
            tick.wf(),
            old(self).open_trades@.len() + old(self).closed_trades@.len() < TRADES_MAX,
            old(self).next_trade_id < u64::MAX,
        ensures
            final(self).wf(),
            trades_views(final(self).open_trades@) == trades_views(old(self).open_trades@).push(
                spec_new_trade(*tick, TradeDirection::LONG, old(self).next_trade_id)),
            final(self).open_trades@.len() == old(self).open_trades@.len() + 1,
            final(self).next_trade_id == old(self).next_trade_id + 1,
            final(self).closed_trades@ == old(self).closed_trades@,
            final(self).charts@ == old(self).charts@,
            final(self).last_equity_high == old(self).last_equity_high,
            final(self).last_equity_low == old(self).last_equity_low,
            final(self).highest_drawdown == old(self).highest_drawdown,
            final(self).id == old(self).id && final(self).in_sample == old(self).in_sample,
            final(self).jpy_base == old(self).jpy_base,
            final(self).deposit == old(self).deposit,
            final(self).drawdown_limit == old(self).drawdown_limit,
    {
        let id = self.next_trade_id;
        self.next_trade_id = self.next_trade_id + 1;
        let t = Trade::new_long_trade(tick, id);
        self.record_new_trade(t);
        proof {
            assert(trades_views(self.open_trades@) =~= trades_views(old(self).open_trades@).push(
                spec_new_trade(*tick, TradeDirection::LONG, old(self).next_trade_id)));
        }
    }

    /// Opens a short trade on the tick, under the next local trade id.
    pub fn open_short_trade(&mut self, tick: &Tick)
        requires
            old(self).wf(),
            tick.wf(),
            old(self).open_trades@.len() + old(self).closed_trades@.len() < TRADES_MAX,
            old(self).next_trade_id < u64::MAX,
        ensures
            final(self).wf(),
            trades_views(final(self).open_trades@) == trades_views(old(self).open_trades@).push(
                spec_new_trade(*tick, TradeDirection::SHORT, old(self).next_trade_id)),
            final(self).open_trades@.len() == old(self).open_trades@.len() + 1,
            final(self).next_trade_id == old(self).next_trade_id + 1,
            final(self).closed_trades@ == old(self).closed_trades@,
            final(self).charts@ == old(self).charts@,
            final(self).last_equity_high == old(self).last_equity_high,
            final(self).last_equity_low == old(self).last_equity_low,
            final(self).highest_drawdown == old(self).highest_drawdown,
            final(self).id == old(self).id && final(self).in_sample == old(self).in_sample,
            final(self).jpy_base == old(self).jpy_base,
            final(self).deposit == old(self).deposit,
            final(self).drawdown_limit == old(self).drawdown_limit,
    {
        let id = self.next_trade_id;
        self.next_trade_id = self.next_trade_id + 1;
        let t = Trade::new_short_trade(tick, id);
        self.record_new_trade(t);
        proof {
            assert(trades_views(self.open_trades@) =~= trades_views(old(self).open_trades@).push(
                spec_new_trade(*tick, TradeDirection::SHORT, old(self).next_trade_id)));
        }
    }

    /// Moves every closed trade out of the open set, in one stable
    /// partitioning pass that keeps both orders.
    pub fn migrate_closed_trades(&mut self)
        requires
            old(self).wf_base(),
        ensures
            final(self).wf(),
            trades_views(final(self).open_trades@) == spec_open_part(
                trades_views(old(self).open_trades@)),
            trades_views(final(self).closed_trades@) == trades_views(old(self).closed_trades@)
                + spec_closed_part(trades_views(old(self).open_trades@)),
            final(self).charts@ == old(self).charts@,
            final(self).last_equity_high == old(self).last_equity_high,
            final(self).last_equity_low == old(self).last_equity_low,
            final(self).highest_drawdown == old(self).highest_drawdown,
            final(self).id == old(self).id && final(self).in_sample == old(self).in_sample,
            final(self).jpy_base == old(self).jpy_base,
            final(self).next_trade_id == old(self).next_trade_id,
            final(self).deposit == old(self).deposit,
            final(self).drawdown_limit == old(self).drawdown_limit,
    {
        let ghost orig = trades_views(old(self).open_trades@);
        let mut keep: Vec<Trade> = Vec::new();
        let ghost mut k: int = 0;
        while self.open_trades.len() > 0
            invariant
                0 <= k <= orig.len(),
                k + self.open_trades@.len() == orig.len(),
                forall|j: int| 0 <= j < self.open_trades@.len()
                    ==> (#[trigger] self.open_trades@[j])@ == orig[k + j],
                trades_views(keep@) =~= spec_open_part(orig.take(k)),
                trades_views(self.closed_trades@) =~= trades_views(old(self).closed_trades@)
                    + spec_closed_part(orig.take(k)),
                forall|j: int| 0 <= j < orig.len() ==> (#[trigger] orig[j]).wf(),
                forall|j: int| 0 <= j < keep@.len() ==> (#[trigger] keep@[j])@.wf()
                    && keep@[j]@.open,
                forall|j: int| 0 <= j < self.closed_trades@.len() ==> {
                    &&& (#[trigger] self.closed_trades@[j])@.wf()
                    &&& !self.closed_trades@[j]@.open
                },
                keep@.len() + self.closed_trades@.len() + self.open_trades@.len()
                    <= old(self).open_trades@.len() + old(self).closed_trades@.len(),
                self.charts@ == old(self).charts@,
                self.last_equity_high == old(self).last_equity_high,
                self.last_equity_low == old(self).last_equity_low,
                self.highest_drawdown == old(self).highest_drawdown,
                self.id == old(self).id && self.in_sample == old(self).in_sample,
                self.jpy_base == old(self).jpy_base,
                self.deposit == old(self).deposit,
                self.drawdown_limit == old(self).drawdown_limit,
                self.next_trade_id == old(self).next_trade_id,
                old(self).wf_base(),
            decreases self.open_trades@.len(),
        {
            proof {
                assert(self.open_trades@[0]@ == orig[k + 0]);
            }
            let t = self.open_trades.remove(0);
            proof {
                assert(t@ == orig[k]);
                assert(orig.take(k + 1).drop_last() =~= orig.take(k));
                assert(orig.take(k + 1).last() == orig[k]);
                assert(spec_open_part(orig.take(k + 1)) == spec_open_part(orig.take(k)) + (
                    if orig[k].open {
                        seq![orig[k]]
                    } else {
                        Seq::<TradeModel>::empty()
                    }));
                assert(spec_closed_part(orig.take(k + 1)) == spec_closed_part(orig.take(k)) + (
                    if orig[k].open {
                        Seq::<TradeModel>::empty()
                    } else {
                        seq![orig[k]]
                    }));
            }
            if t.is_closed() {
                proof {
                    assert(!orig[k].open);
                    assert(spec_open_part(orig.take(k + 1)) =~= spec_open_part(orig.take(k)));
                    assert(spec_closed_part(orig.take(k + 1)) =~= spec_closed_part(
                        orig.take(k)).push(orig[k]));
                }
                let ghost pc = trades_views(self.closed_trades@);
                self.closed_trades.push(t);
                proof {
                    assert(trades_views(self.closed_trades@) =~= pc.push(orig[k]));
                    assert(trades_views(self.closed_trades@) =~= trades_views(
                        old(self).closed_trades@) + spec_closed_part(orig.take(k + 1)));
                    assert(trades_views(keep@) =~= spec_open_part(orig.take(k + 1)));
                }
            } else {
                proof {
                    assert(orig[k].open);
                    assert(spec_closed_part(orig.take(k + 1)) =~= spec_closed_part(orig.take(k)));
                    assert(spec_open_part(orig.take(k + 1)) =~= spec_open_part(
                        orig.take(k)).push(orig[k]));
                }
                let ghost pk = trades_views(keep@);
                keep.push(t);
                proof {
                    assert(trades_views(keep@) =~= pk.push(orig[k]));
                    assert(trades_views(keep@) =~= spec_open_part(orig.take(k + 1)));
                    assert(trades_views(self.closed_trades@) =~= trades_views(
                        old(self).closed_trades@) + spec_closed_part(orig.take(k + 1)));
                }
            }
            proof {
                k = k + 1;
            }
        }
        self.open_trades = keep;
        proof {
            assert(orig.take(k) =~= orig);
            lemma_partition_len(orig);
        }
    }

    /// Closes every open trade against the tick, then sweeps the closed
    /// ones into the closed set.
    pub fn close_all_open_trades(&mut self, tick: &Tick)
        requires
            old(self).wf(),
            tick.wf(),
        ensures
            final(self).wf(),
            final(self).open_trades@.len() == 0,
            trades_views(final(self).closed_trades@) == trades_views(old(self).closed_trades@)
                + spec_close_all(trades_views(old(self).open_trades@), *tick),
            final(self).closed_trades@.len() == old(self).closed_trades@.len()
                + old(self).open_trades@.len(),
            final(self).charts@ == old(self).charts@,
            final(self).last_equity_high == old(self).last_equity_high,
            final(self).last_equity_low == old(self).last_equity_low,
            final(self).highest_drawdown == old(self).highest_drawdown,
            final(self).id == old(self).id && final(self).in_sample == old(self).in_sample,
            final(self).jpy_base == old(self).jpy_base,
            final(self).next_trade_id == old(self).next_trade_id,
            final(self).deposit == old(self).deposit,
            final(self).drawdown_limit == old(self).drawdown_limit,
    {
        let ghost orig = trades_views(old(self).open_trades@);
        let mut i: usize = 0;
        while i < self.open_trades.len()
            invariant
                i <= self.open_trades@.len(),
                self.open_trades@.len() == orig.len(),
                tick.wf(),
                forall|j: int| 0 <= j < orig.len() ==> (#[trigger] orig[j]).wf() && orig[j].open,
                forall|j: int| 0 <= j < i ==> (#[trigger] self.open_trades@[j])@
                    == spec_close_trade(orig[j], *tick),
                forall|j: int| i <= j < orig.len()
                    ==> (#[trigger] self.open_trades@[j])@ == orig[j],
                forall|j: int| 0 <= j < self.open_trades@.len()
                    ==> (#[trigger] self.open_trades@[j])@.wf(),
                self.closed_trades@ == old(self).closed_trades@,
                self.charts@ == old(self).charts@,
                self.last_equity_high == old(self).last_equity_high,
                self.last_equity_low == old(self).last_equity_low,
                self.highest_drawdown == old(self).highest_drawdown,
                self.id == old(self).id && self.in_sample == old(self).in_sample,
                self.jpy_base == old(self).jpy_base,
                self.deposit == old(self).deposit,
                self.drawdown_limit == old(self).drawdown_limit,
                self.next_trade_id == old(self).next_trade_id,
                old(self).wf(),
            decreases self.open_trades@.len() - i,
        {
            let ghost prev = self.open_trades@;
            let mut t = self.open_trades.remove(i);
            let res = t.close(tick);
            match res {
                Ok(()) => {},
                Err(_) => {
                    proof {
                        assert(false);
                    }
                },
            }
            self.open_trades.insert(i, t);
            proof {
                assert(self.open_trades@ =~= prev.update(i as int, self.open_trades@[i as int]));
            }
            i += 1;
        }
        proof {
            assert forall|j: int| 0 <= j < self.open_trades@.len() implies
                !(#[trigger] self.open_trades@[j])@.open by {
                assert(self.open_trades@[j]@ == spec_close_trade(orig[j], *tick));
            }
            assert(trades_views(self.open_trades@) =~= spec_close_all(orig, *tick));
        }
        let ghost mid = trades_views(self.open_trades@);
        self.migrate_closed_trades();
        proof {
            assert forall|j: int| 0 <= j < mid.len() implies !(#[trigger] mid[j]).open by {
                assert(mid[j] == spec_close_trade(orig[j], *tick));
            }
            lemma_parts_all_closed(mid);
            assert(trades_views(self.closed_trades@).len() == self.closed_trades@.len());
            assert(trades_views(old(self).closed_trades@).len()
                == old(self).closed_trades@.len());
            assert(mid.len() == orig.len());
            assert(trades_views(self.closed_trades@) == trades_views(old(self).closed_trades@)
                + spec_closed_part(mid));
        }
    }

    pub fn closed_trades_count(&self) -> (r: usize)
        ensures
            r == self.closed_trades@.len(),
    {
        self.closed_trades.len()
    }

    pub fn open_trades_count(&self) -> (r: usize)
        ensures
            r == self.open_trades@.len(),
    {
        self.open_trades.len()
    }

    pub fn has_open_trades(&self) -> (r: bool)
        ensures
            r == (self.open_trades@.len() > 0),
    {
        self.open_trades.len() > 0
    }

    /// The number of closed long trades.
    pub fn closed_long_trade_count(&self) -> (r: usize)
        ensures
            r == spec_count_long(trades_views(self.closed_trades@)),
    {
        proof {
            lemma_count_long_le(trades_views(self.closed_trades@));
        }
        let mut count: usize = 0;
        let mut i: usize = 0;
        while i < self.closed_trades.len()
            invariant
                i <= self.closed_trades@.len(),
                count == spec_count_long(trades_views(self.closed_trades@).take(i as int)),
                count <= i,
            decreases self.closed_trades@.len() - i,
        {
            proof {
                let vs = trades_views(self.closed_trades@);
                assert(vs.take(i + 1).drop_last() =~= vs.take(i as int));
                assert(vs.take(i + 1).last() == vs[i as int]);
            }
            if self.closed_trades[i].is_long() {
                count += 1;
            }
            i += 1;
        }
        proof {
            assert(trades_views(self.closed_trades@).take(self.closed_trades@.len() as int)
                =~= trades_views(self.closed_trades@));
        }
        count
    }

    /// The number of closed short trades: the rest of the closed set.
    pub fn closed_short_trade_count(&self) -> (r: usize)
        ensures
            r + spec_count_long(trades_views(self.closed_trades@)) == self.closed_trades@.len(),
    {
        proof {
            lemma_count_long_le(trades_views(self.closed_trades@));
        }
        self.closed_trades_count() - self.closed_long_trade_count()
    }
}

// ----- money ----------------------------------------------------------------

/// The summed profit of a trade list, in millipips.
fn sum_profit_vec(ts: &Vec<Trade>) -> (r: i64)
    requires
        forall|i: int| 0 <= i < ts@.len() ==> (#[trigger] ts@[i])@.wf(),
        ts@.len() <= TRADES_MAX,
    ensures
        r == sum_profits(trades_views(ts@)),
        -(ts@.len() * PROFIT_MAX) <= r <= ts@.len() * PROFIT_MAX,
{
    let mut acc: i64 = 0;
    let mut i: usize = 0;
    while i < ts.len()
        invariant
            i <= ts@.len(),
            ts@.len() <= TRADES_MAX,
            forall|j: int| 0 <= j < ts@.len() ==> (#[trigger] ts@[j])@.wf(),
            acc == sum_profits(trades_views(ts@).take(i as int)),
            -(i * PROFIT_MAX) <= acc <= i * PROFIT_MAX,
        decreases ts@.len() - i,
    {
        proof {
            let vs = trades_views(ts@);
            assert(vs.take(i + 1).drop_last() =~= vs.take(i as int));
            assert(vs.take(i + 1).last() == vs[i as int]);
        }
        let p = ts[i].profit();
        acc = acc + p;
        i += 1;
    }
    proof {
        assert(trades_views(ts@).take(ts@.len() as int) =~= trades_views(ts@));
    }
    acc
}

impl Simulation {
    /// The account balance as an exact rational: the deposit plus all
    /// closed profit, over the currency-quote scale.
    pub fn balance(&self) -> (r: Ratio)
        requires
            self.wf(),
        ensures
            r.num == self.spec_balance_num(),
            r.den == self.spec_scale(),
    {
        let s = sum_profit_vec(&self.closed_trades);
        proof {
            lemma_trades_sum_fits(self.closed_trades@.len() as int);
        }
        let den: i64 = if self.jpy_base {
            100
        } else {
            1
        };
        Ratio { num: self.deposit + s, den }
    }

    /// The equity as an exact rational: balance plus unrealized profit,
    /// over the currency-quote scale.
    pub fn equity(&self) -> (r: Ratio)
        requires
            self.wf(),
        ensures
            r.num == self.spec_equity_num(),
            r.den == self.spec_scale(),
    {
        let c = sum_profit_vec(&self.closed_trades);
        let o = sum_profit_vec(&self.open_trades);
        proof {
            lemma_trades_sum_fits(self.closed_trades@.len() as int);
            lemma_trades_sum_fits(self.open_trades@.len() as int);
            lemma_trades_sum_fits(self.closed_trades@.len() + self.open_trades@.len() as int);
        }
        let den: i64 = if self.jpy_base {
            100
        } else {
            1
        };
        Ratio { num: self.deposit + c + o, den }
    }

    /// Raw equity in millipips, without the quote adjustment: drawdown
    /// percentages are ratios of equities, so the adjustment cancels.
    fn equity_raw(&self) -> (r: i64)
        requires
            self.wf(),
        ensures
            r == self.spec_equity_num(),
            -EQ_BOUND < r < EQ_BOUND,
    {
        let c = sum_profit_vec(&self.closed_trades);
        let o = sum_profit_vec(&self.open_trades);
        proof {
            assert((self.open_trades@.len() + self.closed_trades@.len()) * PROFIT_MAX
                <= TRADES_MAX * PROFIT_MAX) by (nonlinear_arith)
                requires self.open_trades@.len() + self.closed_trades@.len() <= TRADES_MAX;
        }
        self.deposit + c + o
    }

    /// The profit so far, an exact rational.  It is literally the
    /// balance minus the deposit: under the quote-currency adjustment
    /// the balance is scaled while the subtracted deposit, deliberately,
    /// is not.
    pub fn profit(&self) -> (r: Ratio)
        requires
            self.wf(),
        ensures
            r.num == self.spec_profit_num(),
            r.den == self.spec_scale(),
    {
        let s = sum_profit_vec(&self.closed_trades);
        proof {
            lemma_trades_sum_fits(self.closed_trades@.len() as int);
        }
        if self.jpy_base {
            Ratio { num: self.deposit + s - self.deposit * 100, den: 100 }
        } else {
            Ratio { num: s, den: 1 }
        }
    }

    /// The optimization score: profit per closed trade.  It is a contract
    /// violation to ask for it while trades are open.  With zero closed
    /// trades the result is the undefined rational, which no comparison
    /// ever ranks above or below anything -- the score that never
    /// materialized.
    pub fn pip_expectancy(&self) -> (r: Result<Ratio, TradeError>)
        requires
            self.wf(),
        ensures
            r is Ok <==> self.open_trades@.len() == 0,
            r is Err ==> r->Err_0 == TradeError::OpenTradesRemain,
            r is Ok ==> {
                &&& r->Ok_0.num == self.spec_profit_num()
                &&& r->Ok_0.den == self.spec_scale() * self.closed_trades@.len()
            },
    {
        if self.open_trades.len() != 0 {
            return Err(TradeError::OpenTradesRemain);
        }
        let p = self.profit();
        let n = self.closed_trades.len() as i64;
        Ok(Ratio { num: p.num, den: p.den * n })
    }

    /// The all-time worst drawdown.
    pub fn get_highest_drawdown(&self) -> (r: Drawdown)
        ensures
            r == self.highest_drawdown,
    {
        self.highest_drawdown
    }

    /// Whether the worst drawdown has fallen below the configured limit:
    /// the circuit breaker of the whole run.
    pub fn has_exceeded_max_drawdown(&self) -> (r: bool)
        ensures
            r == spec_dd_breach(self.highest_drawdown, self.drawdown_limit as int),
    {
        dd_breach(&self.highest_drawdown, self.drawdown_limit)
    }

    /// Recomputes the drawdown state from the current equity: a new
    /// equity high resets both marks; otherwise the low tracks the
    /// current equity; the all-time worst drawdown only ever worsens.
    pub fn update_drawdown(&mut self)
        requires
            old(self).wf(),
        ensures
            final(self).wf(),
            ({
                let e = old(self).spec_equity_num();
                let h2: int = if e > old(self).last_equity_high {
                    e
                } else {
                    old(self).last_equity_high as int
                };
                let dd = (Drawdown { diff: (e - h2) as i64, high: h2 as i64 });
                &&& final(self).last_equity_high == h2
                &&& final(self).last_equity_low == e
                &&& final(self).highest_drawdown == (if spec_dd_lt(dd,
                    old(self).highest_drawdown) {
                    dd
                } else {
                    old(self).highest_drawdown
                })
            }),
            spec_dd_le(final(self).highest_drawdown, old(self).highest_drawdown),
            final(self).highest_drawdown.wf(),
            final(self).open_trades@ == old(self).open_trades@,
            final(self).closed_trades@ == old(self).closed_trades@,
            final(self).charts@ == old(self).charts@,
            final(self).id == old(self).id && final(self).in_sample == old(self).in_sample,
            final(self).jpy_base == old(self).jpy_base,
            final(self).next_trade_id == old(self).next_trade_id,
            final(self).deposit == old(self).deposit,
            final(self).drawdown_limit == old(self).drawdown_limit,
    {
        let equity = self.equity_raw();
        if equity > self.last_equity_high {
            self.last_equity_high = equity;
            self.last_equity_low = equity;
        } else {
            self.last_equity_low = equity;
        }
        let dd = Drawdown {
            diff: self.last_equity_low - self.last_equity_high,
            high: self.last_equity_high,
        };
        if dd_lt(&dd, &self.highest_drawdown) {
            self.highest_drawdown = dd;
        }
    }
}

/// For any equity path, the retained worst drawdown is never a positive
/// percentage: a well-formed simulation's `highest_drawdown` is at most
/// the zero drawdown.
pub proof fn lemma_drawdown_nonpositive(s: Simulation)
    requires
        s.wf(),
    ensures
        spec_dd_le(s.highest_drawdown, (Drawdown { diff: 0, high: 1 })),
{
}

// ----- logs -----------------------------------------------------------------

/// One trade-log row: simulation id, trade id, in-sample flag, then the
/// trade's own columns.
pub open spec fn spec_trade_row(sim_id: u64, in_sample: bool, t: TradeModel) -> Seq<u8> {
    dec_digits(sim_id as nat) + seq![44u8] + dec_digits(t.id as nat) + seq![44u8]
        + spec_bool_bytes(in_sample) + seq![44u8] + spec_trade_csv(t)
}

/// The whole trade log of a simulation: one row per closed trade.
pub open spec fn spec_trades_log(sim_id: u64, in_sample: bool, ts: Seq<TradeModel>) -> Seq<u8>
    decreases ts.len(),
{
    if ts.len() == 0 {
        Seq::empty()
    } else {
        spec_trades_log(sim_id, in_sample, ts.drop_last()) + spec_trade_row(sim_id, in_sample,
            ts.last())
    }
}

/// One tick-audit row: simulation id, trade id, then the tick's columns.
pub open spec fn spec_tick_row(sim_id: u64, trade_id: u64, k: Tick) -> Seq<u8> {
    dec_digits(sim_id as nat) + seq![44u8] + dec_digits(trade_id as nat) + seq![44u8]
        + spec_tick_csv(k)
}

/// The audit rows of one trade: one per recorded tick.
pub open spec fn spec_trade_tick_rows(sim_id: u64, t: TradeModel) -> Seq<u8>
    decreases t.ticks.len(),
{
    if t.ticks.len() == 0 {
        Seq::empty()
    } else {
        spec_trade_tick_rows(sim_id, (TradeModel { ticks: t.ticks.drop_last(), ..t }))
            + spec_tick_row(sim_id, t.id, t.ticks.last())
    }
}

/// The whole tick-audit log: every tick ever observed by a closed trade.
pub open spec fn spec_ticks_log(sim_id: u64, ts: Seq<TradeModel>) -> Seq<u8>
    decreases ts.len(),
{
    if ts.len() == 0 {
        Seq::empty()
    } else {
        spec_ticks_log(sim_id, ts.drop_last()) + spec_trade_tick_rows(sim_id, ts.last())
    }
}

/// Appends one trade-log row.
#[verifier::rlimit(50)]
fn push_trade_row(out: &mut Vec<u8>, sim_id: u64, in_sample: bool, t: &Trade)
    requires
        t@.wf(),
    ensures
        final(out)@ == old(out)@ + spec_trade_row(sim_id, in_sample, t@),
{
    push_u64_dec(out, sim_id);
    out.push(44);
    push_u64_dec(out, t.get_id());
    out.push(44);
    push_bool(out, in_sample);
    out.push(44);
    let mut row = t.to_csv();
    out.append(&mut row);
    proof {
        assert(out@ =~= old(out)@ + spec_trade_row(sim_id, in_sample, t@));
    }
}

/// Appends one tick-audit row.
#[verifier::rlimit(50)]
fn push_tick_row(out: &mut Vec<u8>, sim_id: u64, trade_id: u64, k: &Tick)
    requires
        k.wf(),
    ensures
        final(out)@ == old(out)@ + spec_tick_row(sim_id, trade_id, *k),
{
    push_u64_dec(out, sim_id);
    out.push(44);
    push_u64_dec(out, trade_id);
    out.push(44);
    let mut row = k.to_csv();
    out.append(&mut row);
    proof {
        assert(out@ =~= old(out)@ + spec_tick_row(sim_id, trade_id, *k));
    }
}

impl Simulation {
    /// Appends one row per closed trade to the trade log.
    #[verifier::rlimit(50)]
    pub fn log_trades(&self, out: &mut Vec<u8>)
        requires
            self.wf(),
        ensures
            final(out)@ == old(out)@ + spec_trades_log(self.id, self.in_sample,
                trades_views(self.closed_trades@)),
    {
        let mut i: usize = 0;
        while i < self.closed_trades.len()
            invariant
                i <= self.closed_trades@.len(),
                forall|j: int| 0 <= j < self.closed_trades@.len()
                    ==> (#[trigger] self.closed_trades@[j])@.wf(),
                out@ == old(out)@ + spec_trades_log(self.id, self.in_sample,
                    trades_views(self.closed_trades@).take(i as int)),
            decreases self.closed_trades@.len() - i,
        {
            proof {
                let vs = trades_views(self.closed_trades@);
                assert(vs.take(i + 1).drop_last() =~= vs.take(i as int));
                assert(vs.take(i + 1).last() == vs[i as int]);
            }
            push_trade_row(out, self.id, self.in_sample, &self.closed_trades[i]);
            proof {
                let vs = trades_views(self.closed_trades@);
                assert(out@ =~= old(out)@ + spec_trades_log(self.id, self.in_sample,
                    vs.take(i + 1)));
            }
            i += 1;
        }
        proof {
            assert(trades_views(self.closed_trades@).take(self.closed_trades@.len() as int)
                =~= trades_views(self.closed_trades@));
        }
    }

    /// Appends one row per recorded tick of each closed trade to the tick
    /// audit log.
    #[verifier::rlimit(50)]
    pub fn log_ticks(&self, out: &mut Vec<u8>)
        requires
            self.wf(),
        ensures
            final(out)@ == old(out)@ + spec_ticks_log(self.id,
                trades_views(self.closed_trades@)),
    {
        let mut i: usize = 0;
        while i < self.closed_trades.len()
            invariant
                i <= self.closed_trades@.len(),
                forall|j: int| 0 <= j < self.closed_trades@.len()
                    ==> (#[trigger] self.closed_trades@[j])@.wf(),
                out@ == old(out)@ + spec_ticks_log(self.id,
                    trades_views(self.closed_trades@).take(i as int)),
            decreases self.closed_trades@.len() - i,
        {
            let ghost outer = out@;
            proof {
                let vs = trades_views(self.closed_trades@);
                assert(vs.take(i + 1).drop_last() =~= vs.take(i as int));
                assert(vs.take(i + 1).last() == vs[i as int]);
            }
            let t = &self.closed_trades[i];
            let ghost tm = t@;
            let mut j: usize = 0;
            while j < t.ticks.len()
                invariant
                    j <= t.ticks@.len(),
                    t@ == tm,
                    tm.wf(),
                    out@ == outer + spec_trade_tick_rows(self.id, (TradeModel {
                        ticks: tm.ticks.take(j as int),
                        ..tm
                    })),
                decreases t.ticks@.len() - j,
            {
                proof {
                    let pre = (TradeModel { ticks: tm.ticks.take(j as int), ..tm });
                    let post = (TradeModel { ticks: tm.ticks.take(j + 1), ..tm });
                    assert(post.ticks.drop_last() =~= pre.ticks);
                    assert((TradeModel { ticks: post.ticks.drop_last(), ..post }) =~= pre);
                    assert(post.ticks.last() == tm.ticks[j as int]);
                    assert(spec_trade_tick_rows(self.id, post) == spec_trade_tick_rows(self.id,
                        pre) + spec_tick_row(self.id, tm.id, tm.ticks[j as int]));
                }
                push_tick_row(out, self.id, t.id, &t.ticks[j]);
                proof {
                    assert(out@ =~= outer + spec_trade_tick_rows(self.id, (TradeModel {
                        ticks: tm.ticks.take(j + 1),
                        ..tm
                    })));
                }
                j += 1;
            }
            proof {
                let vs = trades_views(self.closed_trades@);
                assert(tm.ticks.take(tm.ticks.len() as int) =~= tm.ticks);
                assert((TradeModel { ticks: tm.ticks.take(tm.ticks.len() as int), ..tm }) =~= tm);
                assert(out@ =~= outer + spec_trade_tick_rows(self.id, tm));
                assert(out@ =~= old(out)@ + spec_ticks_log(self.id, vs.take(i + 1)));
            }
            i += 1;
        }
        proof {
            assert(trades_views(self.closed_trades@).take(self.closed_trades@.len() as int)
                =~= trades_views(self.closed_trades@));
        }
    }
}

} // verus!
