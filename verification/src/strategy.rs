use vstd::prelude::*;

use crate::range_bound_variable::RangeBoundVariables;
use crate::simulation::Simulation;
use crate::tick::Tick;

verus! {

/// What the strategy asks the engine to do after one tick.
#[derive(Clone, Copy, Debug, PartialEq, Eq, Structural)]
pub enum TradeDecision {
    NOOP,
    LONG,
    SHORT,
    CLOSE,
}

/// The strategy capability: an external decision engine the backtester
/// drives.  `setup` hands over the sampled parameters, `on_tick` is
/// invoked at most once per processed tick and only once every attached
/// chart is full, and `teardown` ends the pass.  The engine promises
/// nothing about an implementation and handles every possible decision.
pub trait Strategy {
    /// Initializes the strategy with one sampled parameter assignment.
    fn setup(&mut self, vars: &RangeBoundVariables);

    /// One decision, given read access to the simulation and the tick.
    fn on_tick(&mut self, sim: &Simulation, tick: &Tick) -> TradeDecision;

    /// Ends the pass.
    fn teardown(&mut self);
}

} // verus!
