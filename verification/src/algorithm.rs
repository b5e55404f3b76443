use vstd::prelude::*;

use crate::chart::{chart_fold, chart_step, lemma_chart_fold_snoc, spec_activated, Chart};
use crate::ratio::{lemma_dd_le_trans, spec_dd_breach, spec_dd_le, spec_dd_lt, Drawdown, Ratio};
use crate::range_bound_variable::RangeBoundVariables;
use crate::simulation::{
    spec_close_all, spec_record_tick, spec_ticks_log, spec_trades_log, Simulation, TRADES_MAX,
};
use crate::strategy::{Strategy, TradeDecision};
use crate::tick::Tick;
use crate::trade::{spec_new_trade, trades_views, TradeDirection};

verus! {

/// Every chart can still count `n` more ticks.
pub open spec fn charts_headroom(charts: Seq<Chart>, n: int) -> bool {
    forall|i: int| 0 <= i < charts.len()
        ==> (#[trigger] charts[i])@.ticks_processed + n <= u64::MAX
}

/// Every tick in the sequence is well-formed.
pub open spec fn ticks_wf(ts: Seq<Tick>) -> bool {
    forall|i: int| 0 <= i < ts.len() ==> (#[trigger] ts[i]).wf()
}

// ----- the pass, as a relation ----------------------------------------------
//
// One pass over a tick window is nondeterministic only in the strategy's
// decisions.  The relations below say everything else exactly: what one
// tick does to the state before the strategy is asked, which four shapes
// the strategy's answer can take, and how a whole pass chains them --
// including that a tripped circuit breaker ends the pass at once, on the
// first tick whose drawdown breached.

/// The fields a strategy decision can never touch.
pub open spec fn spec_pass_frame(s1: Simulation, s2: Simulation) -> bool {
    &&& s2.id == s1.id
    &&& s2.in_sample == s1.in_sample
    &&& s2.jpy_base == s1.jpy_base
    &&& s2.deposit == s1.deposit
    &&& s2.drawdown_limit == s1.drawdown_limit
    &&& s2.charts@ == s1.charts@
    &&& s2.last_equity_high == s1.last_equity_high
    &&& s2.last_equity_low == s1.last_equity_low
    &&& s2.highest_drawdown == s1.highest_drawdown
}

/// The deterministic half of one pass tick: the tick recorded onto every
/// open trade, every chart advanced one step, and the drawdown state
/// recomputed from the resulting equity.  This is a function of `s0` and
/// `t`; it is written as a relation only because a `Vec` cannot be
/// constructed in a specification.
pub open spec fn spec_pass_pre(s0: Simulation, t: Tick, s1: Simulation) -> bool {
    &&& s1.id == s0.id
    &&& s1.in_sample == s0.in_sample
    &&& s1.jpy_base == s0.jpy_base
    &&& s1.deposit == s0.deposit
    &&& s1.drawdown_limit == s0.drawdown_limit
    &&& s1.next_trade_id == s0.next_trade_id
    &&& s1.closed_trades@ == s0.closed_trades@
    &&& trades_views(s1.open_trades@) == spec_record_tick(trades_views(s0.open_trades@), t)
    &&& s1.charts@.len() == s0.charts@.len()
    &&& forall|j: int| 0 <= j < s0.charts@.len()
        ==> (#[trigger] s1.charts@[j])@ == chart_step(s0.charts@[j]@, t)
    &&& ({
        let e = s1.spec_equity_num();
        let h2: int = if e > s0.last_equity_high {
            e
        } else {
            s0.last_equity_high as int
        };
        let dd = (Drawdown { diff: (e - h2) as i64, high: h2 as i64 });
        &&& s1.last_equity_high == h2
        &&& s1.last_equity_low == e
        &&& s1.highest_drawdown == (if spec_dd_lt(dd, s0.highest_drawdown) {
            dd
        } else {
            s0.highest_drawdown
        })
    })
}

/// One strategy decision carried out on the state the deterministic half
/// produced: open a long, open a short, close everything, or nothing --
/// and always nothing unless every chart holds its full window.
pub open spec fn spec_pass_act(s1: Simulation, t: Tick, s2: Simulation) -> bool {
    if forall|i: int| 0 <= i < s1.charts@.len() ==> (#[trigger] s1.charts@[i])@.has_full() {
        ||| s2 == s1
        ||| (spec_pass_frame(s1, s2) && s2.next_trade_id == s1.next_trade_id + 1
            && s2.closed_trades@ == s1.closed_trades@
            && trades_views(s2.open_trades@) == trades_views(s1.open_trades@).push(
                spec_new_trade(t, TradeDirection::LONG, s1.next_trade_id)))
        ||| (spec_pass_frame(s1, s2) && s2.next_trade_id == s1.next_trade_id + 1
            && s2.closed_trades@ == s1.closed_trades@
            && trades_views(s2.open_trades@) == trades_views(s1.open_trades@).push(
                spec_new_trade(t, TradeDirection::SHORT, s1.next_trade_id)))
        ||| (spec_pass_frame(s1, s2) && s2.next_trade_id == s1.next_trade_id
            && s2.open_trades@.len() == 0
            && trades_views(s2.closed_trades@) == trades_views(s1.closed_trades@)
                + spec_close_all(trades_views(s1.open_trades@), t))
    } else {
        s2 == s1
    }
}

/// One full pass tick: the deterministic half did not trip the circuit
/// breaker, and one strategy decision followed.
pub open spec fn spec_pass_step(s0: Simulation, t: Tick, s2: Simulation, limit: int) -> bool {
    exists|s1: Simulation|
        {
            &&& #[trigger] spec_pass_pre(s0, t, s1)
            &&& !spec_dd_breach(s1.highest_drawdown, limit)
            &&& spec_pass_act(s1, t, s2)
        }
}

/// One pass tick that tripped the circuit breaker: the deterministic
/// half alone left the drawdown breached, and no decision was taken.
pub open spec fn spec_pass_break(s0: Simulation, t: Tick, s1: Simulation, limit: int) -> bool {
    &&& spec_pass_pre(s0, t, s1)
    &&& spec_dd_breach(s1.highest_drawdown, limit)
}

/// The states a pass walks through, oldest first: `states[0]` is the
/// starting state and `states[i + 1]` follows `states[i]` by processing
/// `ticks[i]`.  When `broke` the last tick processed is exactly the
/// first whose drawdown breached `limit`, and no later tick was touched;
/// otherwise every tick was processed without a breach.
pub open spec fn spec_pass_trace(
    states: Seq<Simulation>,
    ticks: Seq<Tick>,
    limit: int,
    broke: bool,
) -> bool {
    if broke {
        &&& 2 <= states.len() <= ticks.len() + 1
        &&& forall|i: int| 0 <= i < states.len() - 2 ==> spec_pass_step(#[trigger] states[i],
            ticks[i], states[i + 1], limit)
        &&& spec_pass_break(states[states.len() - 2], ticks[states.len() - 2],
            states[states.len() - 1], limit)
    } else {
        &&& states.len() == ticks.len() + 1
        &&& forall|i: int| 0 <= i < ticks.len() ==> spec_pass_step(#[trigger] states[i],
            ticks[i], states[i + 1], limit)
    }
}

/// `s1` is `s0` with every chart switched to active and nothing else
/// changed: the state a pass starts from.
pub open spec fn spec_activated_sim(s0: Simulation, s1: Simulation) -> bool {
    &&& s1.id == s0.id
    &&& s1.in_sample == s0.in_sample
    &&& s1.jpy_base == s0.jpy_base
    &&& s1.deposit == s0.deposit
    &&& s1.drawdown_limit == s0.drawdown_limit
    &&& s1.next_trade_id == s0.next_trade_id
    &&& s1.open_trades@ == s0.open_trades@
    &&& s1.closed_trades@ == s0.closed_trades@
    &&& s1.last_equity_high == s0.last_equity_high
    &&& s1.last_equity_low == s0.last_equity_low
    &&& s1.highest_drawdown == s0.highest_drawdown
    &&& s1.charts@.len() == s0.charts@.len()
    &&& forall|j: int| 0 <= j < s0.charts@.len()
        ==> (#[trigger] s1.charts@[j])@ == spec_activated(s0.charts@[j]@)
}

/// Drives one complete pass of tick-by-tick simulation: the same engine
/// serves the exploratory in-sample runs and the final out-of-sample run;
/// the flag is a semantic marker carried into the logs.
pub struct Algorithm {
    pub simulation: Simulation,
    pub in_sample: bool,
}

impl Algorithm {
    pub fn new(charts: Vec<Chart>, in_sample: bool, jpy_base: bool, sim_id: u64) -> (r: Algorithm)
        requires
            forall|i: int| 0 <= i < charts@.len() ==> (#[trigger] charts@[i])@.wf(),
        ensures
            r.simulation.wf(),
            r.in_sample == in_sample,
            r.simulation.in_sample == in_sample,
            r.simulation.jpy_base == jpy_base,
            r.simulation.id == sim_id,
            r.simulation.charts@ == charts@,
            r.simulation.open_trades@.len() == 0,
            r.simulation.closed_trades@.len() == 0,
            r.simulation.next_trade_id == 1,
            r.simulation.highest_drawdown == (crate::ratio::Drawdown { diff: 0, high: 1 }),
            r.simulation.drawdown_limit == crate::simulation::DRAWDOWN_LIMIT,
    {
        Algorithm { simulation: Simulation::new(charts, in_sample, jpy_base, sim_id), in_sample }
    }

    /// An exploratory pass over an in-sample window.
    pub fn new_in_sample(charts: Vec<Chart>, jpy_base: bool, sim_id: u64) -> (r: Algorithm)
        requires
            forall|i: int| 0 <= i < charts@.len() ==> (#[trigger] charts@[i])@.wf(),
        ensures
            r.simulation.wf(),
            r.in_sample == true,
            r.simulation.in_sample == true,
            r.simulation.jpy_base == jpy_base,
            r.simulation.id == sim_id,
            r.simulation.charts@ == charts@,
            r.simulation.open_trades@.len() == 0,
            r.simulation.closed_trades@.len() == 0,
            r.simulation.next_trade_id == 1,
            r.simulation.highest_drawdown == (crate::ratio::Drawdown { diff: 0, high: 1 }),
            r.simulation.drawdown_limit == crate::simulation::DRAWDOWN_LIMIT,
    {
        Algorithm::new(charts, true, jpy_base, sim_id)
    }

    /// The final validation pass over an out-of-sample window.
    pub fn new_out_of_sample(charts: Vec<Chart>, jpy_base: bool, sim_id: u64) -> (r: Algorithm)
        requires
            forall|i: int| 0 <= i < charts@.len() ==> (#[trigger] charts@[i])@.wf(),
        ensures
            r.simulation.wf(),
            r.in_sample == false,
            r.simulation.in_sample == false,
            r.simulation.jpy_base == jpy_base,
            r.simulation.id == sim_id,
            r.simulation.charts@ == charts@,
            r.simulation.open_trades@.len() == 0,
            r.simulation.closed_trades@.len() == 0,
            r.simulation.next_trade_id == 1,
            r.simulation.highest_drawdown == (crate::ratio::Drawdown { diff: 0, high: 1 }),
            r.simulation.drawdown_limit == crate::simulation::DRAWDOWN_LIMIT,
    {
        Algorithm::new(charts, false, jpy_base, sim_id)
    }

    /// One complete pass: per tick, in order -- append the tick to all
    /// open trades, advance all charts, recompute the drawdown and check
    /// the circuit breaker (the pass stops dead on a breach, before any
    /// further tick is processed), and, only when every chart is full,
    /// consult the strategy and carry out its decision.  After the last
    /// tick every remaining trade is force-closed against it, the logs
    /// are appended, and the result is the pip expectancy -- or no score
    /// at all if the drawdown limit was breached.
    #[verifier::rlimit(100)]
    pub fn execute_on<S: Strategy>(
        &mut self,
        strategy: &mut S,
        ticks: &Vec<Tick>,
        vars: &RangeBoundVariables,
        tradelog: &mut Vec<u8>,
        ticklog: &mut Vec<u8>,
    ) -> (r: Option<Ratio>)
        requires
            old(self).simulation.wf(),
            old(self).simulation.open_trades@.len() == 0,
            ticks_wf(ticks@),
            old(self).simulation.closed_trades@.len() + ticks@.len() <= TRADES_MAX,
            old(self).simulation.next_trade_id + ticks@.len() <= u64::MAX,
            charts_headroom(old(self).simulation.charts@, ticks@.len() as int),
            !spec_dd_breach(old(self).simulation.highest_drawdown,
                old(self).simulation.drawdown_limit as int),
        ensures
            final(self).simulation.wf(),
            final(self).in_sample == old(self).in_sample,
            final(self).simulation.id == old(self).simulation.id,
            final(self).simulation.in_sample == old(self).simulation.in_sample,
            (r is None) == spec_dd_breach(final(self).simulation.highest_drawdown,
                final(self).simulation.drawdown_limit as int),
            final(self).simulation.open_trades@.len() == 0,
            ticks@.len() == 0 ==> r is Some,
            spec_dd_le(final(self).simulation.highest_drawdown,
                old(self).simulation.highest_drawdown),
            r is Some ==> {
                &&& r->Some_0.num == final(self).simulation.spec_profit_num()
                &&& r->Some_0.den == final(self).simulation.spec_scale()
                    * final(self).simulation.closed_trades@.len()
            },
            exists|states: Seq<Simulation>|
                {
                    &&& #[trigger] spec_pass_trace(states, ticks@,
                        old(self).simulation.drawdown_limit as int, r is None)
                    &&& spec_activated_sim(old(self).simulation, states[0])
                    &&& final(self).simulation.highest_drawdown == states[states.len()
                        - 1].highest_drawdown
                    &&& final(self).simulation.charts@ == states[states.len() - 1].charts@
                    &&& ({
                        let full: int = if r is None {
                            states.len() - 2
                        } else {
                            ticks@.len() as int
                        };
                        &&& (full == 0 ==> trades_views(final(self).simulation.closed_trades@)
                            == trades_views(states[states.len() - 1].closed_trades@))
                        &&& (full > 0 ==> trades_views(final(self).simulation.closed_trades@)
                            == trades_views(states[states.len() - 1].closed_trades@)
                            + spec_close_all(trades_views(states[states.len()
                                - 1].open_trades@), ticks@[full - 1]))
                    })
                },
            final(tradelog)@ == old(tradelog)@ + spec_trades_log(old(self).simulation.id,
                old(self).simulation.in_sample, trades_views(final(self).simulation.closed_trades@)),
            final(ticklog)@ == old(ticklog)@ + spec_ticks_log(old(self).simulation.id,
                trades_views(final(self).simulation.closed_trades@)),
            final(self).simulation.charts@.len() == old(self).simulation.charts@.len(),
            forall|j: int| 0 <= j < old(self).simulation.charts@.len() ==> ({
                let c0 = old(self).simulation.charts@[j]@;
                let c1 = (#[trigger] final(self).simulation.charts@[j])@;
                &&& c0.ticks_processed <= c1.ticks_processed <= c0.ticks_processed
                    + ticks@.len()
                &&& c1 == chart_fold(spec_activated(c0), ticks@.take(c1.ticks_processed
                    - c0.ticks_processed))
            }),
            r is Some ==> forall|j: int| 0 <= j < old(self).simulation.charts@.len()
                ==> (#[trigger] final(self).simulation.charts@[j])@.ticks_processed
                    == old(self).simulation.charts@[j]@.ticks_processed + ticks@.len(),
    {
        let ghost pre = old(self).simulation;
        let mut exceeded = false;
        let mut last: Option<Tick> = None;
        strategy.setup(vars);
        self.simulation.activate_charts();
        let ghost mut states: Seq<Simulation> = seq![self.simulation];
        let mut i: usize = 0;
        proof {
            assert(ticks@.take(0int) =~= Seq::<Tick>::empty());
            assert forall|j: int| 0 <= j < pre.charts@.len() implies (
                #[trigger] self.simulation.charts@[j])@ == chart_fold(
                spec_activated(pre.charts@[j]@), ticks@.take(0int)) by {
                assert(self.simulation.charts@[j]@ == spec_activated(pre.charts@[j]@));
            }
            assert(spec_activated_sim(pre, states[0]));
        }
        while i < ticks.len() && !exceeded
            invariant
                i <= ticks@.len(),
                ticks_wf(ticks@),
                self.simulation.wf(),
                self.simulation.open_trades@.len() + self.simulation.closed_trades@.len()
                    <= pre.closed_trades@.len() + i,
                pre.closed_trades@.len() + ticks@.len() <= TRADES_MAX,
                self.simulation.next_trade_id <= pre.next_trade_id + i,
                pre.next_trade_id + ticks@.len() <= u64::MAX,
                self.simulation.charts@.len() == pre.charts@.len(),
                forall|j: int| 0 <= j < pre.charts@.len()
                    ==> (#[trigger] self.simulation.charts@[j])@.ticks_processed
                        == pre.charts@[j]@.ticks_processed + i,
                forall|j: int| 0 <= j < pre.charts@.len()
                    ==> (#[trigger] self.simulation.charts@[j])@ == chart_fold(
                        spec_activated(pre.charts@[j]@), ticks@.take(i as int)),
                charts_headroom(pre.charts@, ticks@.len() as int),
                !exceeded ==> !spec_dd_breach(self.simulation.highest_drawdown,
                    self.simulation.drawdown_limit as int),
                exceeded ==> spec_dd_breach(self.simulation.highest_drawdown,
                    self.simulation.drawdown_limit as int),
                last is None ==> self.simulation.open_trades@.len() == 0,
                last is Some ==> last->0.wf(),
                pre.highest_drawdown.wf(),
                states.len() == i + 1,
                states[states.len() - 1] == self.simulation,
                spec_activated_sim(pre, states[0]),
                spec_dd_le(self.simulation.highest_drawdown, pre.highest_drawdown),
                !exceeded ==> forall|j: int| 0 <= j < i ==> spec_pass_step(#[trigger] states[j],
                    ticks@[j], states[j + 1], pre.drawdown_limit as int),
                exceeded ==> i >= 1,
                exceeded ==> forall|j: int| 0 <= j < i - 1 ==> spec_pass_step(
                    #[trigger] states[j], ticks@[j], states[j + 1],
                    pre.drawdown_limit as int),
                exceeded ==> spec_pass_break(states[i - 1], ticks@[i - 1], states[i as int],
                    pre.drawdown_limit as int),
                ({
                    let full: int = if exceeded {
                        i - 1
                    } else {
                        i as int
                    };
                    &&& (full == 0 ==> last is None)
                    &&& (full > 0 ==> last == Some(ticks@[full - 1]))
                }),
                self.simulation.id == pre.id,
                self.simulation.in_sample == pre.in_sample,
                self.simulation.jpy_base == pre.jpy_base,
                self.simulation.drawdown_limit == pre.drawdown_limit,
                self.in_sample == old(self).in_sample,
            decreases ticks@.len() - i,
        {
            let t = ticks[i];
            let ghost s_at = self.simulation;
            self.simulation.record_tick_onto_trades(&t);
            proof {
                assert(ticks@.take(i + 1) =~= ticks@.take(i as int).push(ticks@[i as int]));
                assert forall|j: int| 0 <= j < pre.charts@.len() implies chart_fold(
                    spec_activated(pre.charts@[j]@), ticks@.take(i + 1)) == chart_step(
                    self.simulation.charts@[j]@, ticks@[i as int]) by {
                    lemma_chart_fold_snoc(spec_activated(pre.charts@[j]@),
                        ticks@.take(i as int), ticks@[i as int]);
                }
            }
            self.simulation.update_charts(&t);
            let ghost mid = self.simulation;
            self.simulation.update_drawdown();
            let ghost stepped = self.simulation;
            proof {
                assert(stepped.spec_equity_num() == mid.spec_equity_num());
                assert(spec_pass_pre(s_at, t, stepped));
                lemma_dd_le_trans(stepped.highest_drawdown, s_at.highest_drawdown,
                    pre.highest_drawdown);
            }
            if self.simulation.has_exceeded_max_drawdown() {
                exceeded = true;
                proof {
                    states = states.push(self.simulation);
                    assert(spec_pass_break(s_at, t, stepped, pre.drawdown_limit as int));
                }
            } else {
                if self.simulation.can_trade() {
                    let d = strategy.on_tick(&self.simulation, &t);
                    match d {
                        TradeDecision::LONG => self.simulation.open_long_trade(&t),
                        TradeDecision::SHORT => self.simulation.open_short_trade(&t),
                        TradeDecision::CLOSE => {
                            let ghost po = trades_views(self.simulation.open_trades@);
                            let ghost pc = trades_views(self.simulation.closed_trades@);
                            self.simulation.close_all_open_trades(&t);
                            proof {
                                assert(trades_views(self.simulation.closed_trades@).len()
                                    == pc.len() + crate::simulation::spec_close_all(po, t).len());
                                assert(crate::simulation::spec_close_all(po, t).len()
                                    == po.len());
                            }
                        },
                        TradeDecision::NOOP => {},
                    }
                }
                last = Some(t);
                proof {
                    assert(spec_pass_act(stepped, t, self.simulation));
                    assert(spec_pass_step(s_at, t, self.simulation,
                        pre.drawdown_limit as int));
                    states = states.push(self.simulation);
                }
            }
            i += 1;
        }
        let ghost slast = self.simulation;
        match last {
            Some(lt) => {
                self.simulation.close_all_open_trades(&lt);
            },
            None => {},
        }
        strategy.teardown();
        self.simulation.log_trades(tradelog);
        self.simulation.log_ticks(ticklog);
        proof {
            let full: int = if exceeded {
                states.len() - 2
            } else {
                ticks@.len() as int
            };
            assert(spec_pass_trace(states, ticks@, pre.drawdown_limit as int, exceeded));
            assert(states[states.len() - 1] == slast);
            assert(full == 0 ==> trades_views(self.simulation.closed_trades@)
                == trades_views(slast.closed_trades@));
            assert(full > 0 ==> trades_views(self.simulation.closed_trades@)
                == trades_views(slast.closed_trades@) + spec_close_all(
                trades_views(slast.open_trades@), ticks@[full - 1]));
        }
        if exceeded {
            None
        } else {
            let score = match self.simulation.pip_expectancy() {
                Ok(s) => s,
                Err(_) => {
                    proof {
                        assert(false);
                    }
                    Ratio { num: 0, den: 0 }
                },
            };
            Some(score)
        }
    }
}

} // verus!
