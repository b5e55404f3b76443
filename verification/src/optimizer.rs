use vstd::prelude::*;

use crate::algorithm::{charts_headroom, ticks_wf, Algorithm};
use crate::chart::{clone_charts, Chart};
use crate::range_bound_variable::{same_declaration, RangeBoundVariables};
use crate::ratio::{spec_ratio_gt, spec_ratio_lt_int, Ratio};
use crate::simulation::{IdAllocator, TRADES_MAX};
use crate::strategy::Strategy;
use crate::tick::Tick;

verus! {

/// The score every trial must beat before it can become the best one, in
/// millipips per trade.
pub const BEST_SCORE_INIT_MP: i64 = -999_999_000;

/// The viability floor: a best score below this (millipips per trade)
/// fails the whole optimization.  Deliberately permissive.
pub const SCORE_FLOOR_MP: i64 = -999_990;

/// The running (best score, index of the best trial) after folding the
/// given trial outcomes in order: a trial becomes best only by strictly
/// beating the best so far, so the first of equals wins, and an undefined
/// score (a pass with no closed trades) never wins.
pub open spec fn spec_best_fold(s: Seq<Option<Ratio>>) -> (Ratio, Option<int>)
    decreases s.len(),
{
    if s.len() == 0 {
        (Ratio { num: BEST_SCORE_INIT_MP, den: 1 }, None::<int>)
    } else {
        let prev = spec_best_fold(s.drop_last());
        match s.last() {
            Some(sc) => if spec_ratio_gt(sc, prev.0) {
                (sc, Some(s.len() - 1))
            } else {
                prev
            },
            None => prev,
        }
    }
}

/// How many trials succeeded (returned any score at all).
pub open spec fn spec_some_count(s: Seq<Option<Ratio>>) -> int
    decreases s.len(),
{
    if s.len() == 0 {
        0
    } else {
        spec_some_count(s.drop_last()) + (if s.last() is Some {
            1int
        } else {
            0int
        })
    }
}

/// Whether the trial set yields a usable assignment: at least one trial
/// succeeded and the best score clears the viability floor.
pub open spec fn spec_trials_viable(s: Seq<Option<Ratio>>) -> bool {
    spec_some_count(s) > 0 && !spec_ratio_lt_int(spec_best_fold(s).0, SCORE_FLOOR_MP as int)
}

proof fn lemma_best_fold_none_is_init(s: Seq<Option<Ratio>>)
    ensures
        spec_best_fold(s).1 is None ==> spec_best_fold(s).0 == (Ratio {
            num: BEST_SCORE_INIT_MP,
            den: 1,
        }),
    decreases s.len(),
{
    if s.len() > 0 {
        lemma_best_fold_none_is_init(s.drop_last());
    }
}

/// The selected trial carries the maximum score among exactly the trials
/// that succeeded: no successful trial strictly beats it, and it is the
/// first trial to have reached that score.
pub proof fn lemma_best_fold_is_max(s: Seq<Option<Ratio>>)
    ensures
        forall|j: int| 0 <= j < s.len() && s[j] is Some
            ==> !spec_ratio_gt((#[trigger] s[j])->Some_0, spec_best_fold(s).0),
        spec_best_fold(s).1 is Some ==> {
            let i = spec_best_fold(s).1->0;
            &&& 0 <= i < s.len()
            &&& s[i] is Some
            &&& spec_best_fold(s).0 == s[i]->Some_0
        },
    decreases s.len(),
{
    if s.len() > 0 {
        lemma_best_fold_is_max(s.drop_last());
        assert(forall|j: int| 0 <= j < s.len() - 1 ==> s.drop_last()[j] == s[j]);
        let prev = spec_best_fold(s.drop_last());
        let cur = spec_best_fold(s);
        assert forall|j: int| 0 <= j < s.len() && s[j] is Some implies !spec_ratio_gt(
            (#[trigger] s[j])->Some_0, cur.0) by {
            if j < s.len() - 1 {
                assert(!spec_ratio_gt(s[j]->Some_0, prev.0));
                if spec_ratio_gt(s[j]->Some_0, cur.0) {
                    // cur.0 either equals prev.0 or strictly beats it; a score
                    // beating cur.0 would then beat prev.0 too.
                    if cur.0 != prev.0 {
                        assert(spec_ratio_gt(cur.0, prev.0));
                        crate::optimizer::lemma_ratio_gt_trans(s[j]->Some_0, cur.0, prev.0);
                    }
                    assert(false);
                }
            }
        }
    }
}

/// Strict rational order is transitive.
pub proof fn lemma_ratio_gt_trans(a: Ratio, b: Ratio, c: Ratio)
    by (nonlinear_arith)
    requires
        spec_ratio_gt(a, b),
        spec_ratio_gt(b, c),
    ensures
        spec_ratio_gt(a, c),
{
}

/// Picks the winning trial: the first trial whose score strictly beats
/// every earlier one, refused when no trial succeeded or the best score
/// is below the viability floor.
pub fn select_best_trial(outcomes: &Vec<Option<Ratio>>) -> (r: Option<usize>)
    ensures
        r is Some <==> spec_trials_viable(outcomes@),
        r is Some ==> Some(r->0 as int) == spec_best_fold(outcomes@).1,
{
    let mut best = Ratio { num: BEST_SCORE_INIT_MP, den: 1 };
    let mut best_idx: Option<usize> = None;
    let mut successful: usize = 0;
    let mut i: usize = 0;
    proof {
        assert(outcomes@.take(0int) =~= Seq::<Option<Ratio>>::empty());
    }
    while i < outcomes.len()
        invariant
            i <= outcomes@.len(),
            successful == spec_some_count(outcomes@.take(i as int)),
            successful <= i,
            (best, match best_idx {
                Some(b) => Some(b as int),
                None => None::<int>,
            }) == spec_best_fold(outcomes@.take(i as int)),
        decreases outcomes@.len() - i,
    {
        proof {
            assert(outcomes@.take(i + 1).drop_last() =~= outcomes@.take(i as int));
            assert(outcomes@.take(i + 1).last() == outcomes@[i as int]);
        }
        match &outcomes[i] {
            Some(sc) => {
                if sc.gt(&best) {
                    best = *sc;
                    best_idx = Some(i);
                }
                successful += 1;
            },
            None => {},
        }
        i += 1;
    }
    proof {
        assert(outcomes@.take(outcomes@.len() as int) =~= outcomes@);
    }
    if successful == 0 || best.lt_int(SCORE_FLOOR_MP) {
        return None;
    }
    match best_idx {
        Some(b) => Some(b),
        None => {
            proof {
                lemma_best_fold_none_is_init(outcomes@);
            }
            None
        },
    }
}

/// The randomized-search optimizer: samples fresh parameter assignments,
/// scores each against a fresh clone of the charts, and keeps the best.
pub struct Optimizer {
    /// How many trials to run per window.
    pub iterations: usize,
    /// The fixed currency-quote adjustment flag handed to each trial's
    /// simulation.
    pub jpy_base: bool,
}

impl Optimizer {
    pub fn new(iterations: usize, jpy_base: bool) -> (r: Optimizer)
        ensures
            r.iterations == iterations,
            r.jpy_base == jpy_base,
    {
        Optimizer { iterations, jpy_base }
    }

    /// Runs the configured number of independent trials over the
    /// in-sample window and returns the best-scoring assignment, or
    /// nothing when zero trials produced a viable score.  Each trial
    /// randomizes its own copy of the template and mutates its own clone
    /// of the charts; no trial observes another's state.  The trial
    /// scores depend on the strategy's decisions and on the random
    /// draws, so which assignment wins cannot be a function of these
    /// arguments; the selection law itself -- first strict maximum over
    /// exactly the successful trials, refused below the viability floor
    /// -- is the exact contract of `select_best_trial`, which this
    /// function applies to the collected outcomes.
    pub fn variables_for<S: Strategy>(
        &self,
        strategy: &mut S,
        template: &RangeBoundVariables,
        charts: &Vec<Chart>,
        ticks: &Vec<Tick>,
        ids: &mut IdAllocator,
        tradelog: &mut Vec<u8>,
        ticklog: &mut Vec<u8>,
    ) -> (r: Option<RangeBoundVariables>)
        requires
            template.wf(),
            forall|i: int| 0 <= i < charts@.len() ==> (#[trigger] charts@[i])@.wf(),
            ticks_wf(ticks@),
            ticks@.len() <= TRADES_MAX,
            charts_headroom(charts@, ticks@.len() as int),
            old(ids).next + self.iterations <= u64::MAX,
        ensures
            final(ids).next <= old(ids).next + self.iterations,
            r is Some ==> r->0.wf(),
            r is Some ==> same_declaration(r->0@, template@),
            self.iterations == 0 ==> r is None,
    {
        let mut outcomes: Vec<Option<Ratio>> = Vec::new();
        let mut assignments: Vec<RangeBoundVariables> = Vec::new();
        let mut i: usize = 0;
        while i < self.iterations
            invariant
                i <= self.iterations,
                outcomes@.len() == i,
                outcomes@.len() == assignments@.len(),
                forall|j: int| 0 <= j < assignments@.len()
                    ==> (#[trigger] assignments@[j]).wf(),
                forall|j: int| 0 <= j < assignments@.len()
                    ==> same_declaration((#[trigger] assignments@[j])@, template@),
                template.wf(),
                forall|k: int| 0 <= k < charts@.len() ==> (#[trigger] charts@[k])@.wf(),
                ticks_wf(ticks@),
                ticks@.len() <= TRADES_MAX,
                charts_headroom(charts@, ticks@.len() as int),
                ids.next <= old(ids).next + i,
                old(ids).next + self.iterations <= u64::MAX,
            decreases self.iterations - i,
        {
            let mut vars = template.clone();
            vars.randomize();
            proof {
                assert(same_declaration(vars@, template@));
            }
            let trial_charts = clone_charts(charts);
            proof {
                assert(forall|k: int| 0 <= k < trial_charts@.len()
                    ==> (#[trigger] trial_charts@[k])@.wf());
                assert(charts_headroom(trial_charts@, ticks@.len() as int)) by {
                    assert(forall|k: int| 0 <= k < trial_charts@.len()
                        ==> (#[trigger] trial_charts@[k])@.ticks_processed
                            == charts@[k]@.ticks_processed);
                }
            }
            let sim_id = ids.next_id();
            let mut algorithm = Algorithm::new_in_sample(trial_charts, self.jpy_base, sim_id);
            let score = algorithm.execute_on(strategy, ticks, &vars, tradelog, ticklog);
            outcomes.push(score);
            assignments.push(vars);
            i += 1;
        }
        match select_best_trial(&outcomes) {
            Some(best) => {
                proof {
                    crate::optimizer::lemma_best_fold_is_max(outcomes@);
                }
                let winner = assignments.remove(best);
                Some(winner)
            },
            None => None,
        }
    }
}

} // verus!
