use vstd::prelude::*;

use crate::algorithm::{ticks_wf, Algorithm};
use crate::chart::{
    chart_fold, chart_step, charts_views, clone_charts, lemma_chart_fold_snoc,
    lemma_chart_step_wf, Chart, ChartModel,
};
use crate::config::ConfigurationFile;
use crate::errors::{ConfigError, RunError};
use crate::optimizer::Optimizer;
use crate::ratio::Ratio;
use crate::simulation::{IdAllocator, TRADES_MAX};
use crate::strategy::Strategy;
use crate::tick::Tick;
use crate::util;
use crate::util::{spec_day_of_week, valid_time_span};

verus! {

/// Every chart folded over the same tick run.
pub open spec fn charts_fold_all(cs: Seq<ChartModel>, ts: Seq<Tick>) -> Seq<ChartModel> {
    cs.map_values(|c: ChartModel| chart_fold(c, ts))
}

/// Every chart holds its full candle window.
pub open spec fn all_charts_full(cs: Seq<ChartModel>) -> bool {
    forall|i: int| 0 <= i < cs.len() ==> (#[trigger] cs[i]).has_full()
}

/// Every chart in the vector is well-formed.
pub open spec fn charts_ok(charts: Seq<Chart>) -> bool {
    forall|i: int| 0 <= i < charts.len() ==> (#[trigger] charts[i])@.wf()
}

/// Where the warm-up phase that scans from `start` ends, probing from
/// position `k` on: one past the first consumed tick after which every
/// chart is full, or the stream length when that never happens.
pub open spec fn spec_warm_scan(cs: Seq<ChartModel>, ts: Seq<Tick>, start: int, k: int) -> int
    decreases ts.len() - k,
{
    if k >= ts.len() || k < start {
        ts.len() as int
    } else if all_charts_full(charts_fold_all(cs, ts.subrange(start, k + 1))) {
        k + 1
    } else {
        spec_warm_scan(cs, ts, start, k + 1)
    }
}

/// Where the warm-up phase ends when it scans from `start`.
pub open spec fn spec_warm_end(cs: Seq<ChartModel>, ts: Seq<Tick>, start: int) -> int {
    spec_warm_scan(cs, ts, start, start)
}

/// Advances every chart by one tick.
fn step_all_charts(charts: &mut Vec<Chart>, tick: &Tick)
    requires
        charts_ok(old(charts)@),
        tick.prices_wf(),
        forall|i: int| 0 <= i < old(charts)@.len()
            ==> (#[trigger] old(charts)@[i])@.ticks_processed < u64::MAX,
    ensures
        final(charts)@.len() == old(charts)@.len(),
        forall|i: int| 0 <= i < old(charts)@.len()
            ==> (#[trigger] final(charts)@[i])@ == chart_step(old(charts)@[i]@, *tick),
        charts_ok(final(charts)@),
{
    let mut i: usize = 0;
    while i < charts.len()
        invariant
            i <= charts@.len(),
            charts@.len() == old(charts)@.len(),
            tick.prices_wf(),
            forall|j: int| 0 <= j < i ==> (#[trigger] charts@[j])@ == chart_step(
                old(charts)@[j]@, *tick),
            forall|j: int| 0 <= j < i ==> (#[trigger] charts@[j])@.wf(),
            forall|j: int| i <= j < charts@.len()
                ==> #[trigger] charts@[j] == old(charts)@[j],
            charts_ok(old(charts)@),
            forall|j: int| 0 <= j < old(charts)@.len()
                ==> (#[trigger] old(charts)@[j])@.ticks_processed < u64::MAX,
        decreases charts@.len() - i,
    {
        let ghost prev = charts@;
        proof {
            assert(charts_views(old(charts)@)[i as int] == old(charts)@[i as int]@);
        }
        let mut c = charts.remove(i);
        proof {
            lemma_chart_step_wf(c@, *tick);
        }
        c.process_tick(tick);
        charts.insert(i, c);
        proof {
            assert(charts@ =~= prev.update(i as int, charts@[i as int]));
        }
        i += 1;
    }
    proof {
        assert forall|j: int| 0 <= j < charts_views(charts@).len() implies (#[trigger] charts_views(
            charts@)[j]).wf() by {
            assert(charts_views(charts@)[j] == charts@[j]@);
        }
    }
}

/// Applies the ticks `from..to` to every chart, in order: the replay and
/// forward-walk primitive of the walk-forward driver.  Charts end exactly
/// where they would had the run never been rewound.
pub fn apply_ticks_to_charts(charts: &mut Vec<Chart>, ticks: &Vec<Tick>, from: usize, to: usize)
    requires
        from <= to <= ticks@.len(),
        charts_ok(old(charts)@),
        ticks_wf(ticks@),
        forall|i: int| 0 <= i < old(charts)@.len()
            ==> (#[trigger] old(charts)@[i])@.ticks_processed + (to - from) <= u64::MAX,
    ensures
        final(charts)@.len() == old(charts)@.len(),
        forall|i: int| 0 <= i < old(charts)@.len()
            ==> (#[trigger] final(charts)@[i])@ == chart_fold(old(charts)@[i]@,
                ticks@.subrange(from as int, to as int)),
        charts_ok(final(charts)@),
        forall|i: int| 0 <= i < old(charts)@.len()
            ==> (#[trigger] final(charts)@[i])@.ticks_processed
                == old(charts)@[i]@.ticks_processed + (to - from),
{
    let ghost ov = old(charts)@;
    let mut k: usize = from;
    proof {
        assert(ticks@.subrange(from as int, from as int) =~= Seq::<Tick>::empty());
    }
    while k < to
        invariant
            ov == old(charts)@,
            from <= k <= to <= ticks@.len(),
            charts@.len() == ov.len(),
            ticks_wf(ticks@),
            forall|i: int| 0 <= i < ov.len() ==> (#[trigger] charts@[i])@ == chart_fold(
                ov[i]@, ticks@.subrange(from as int, k as int)),
            forall|i: int| 0 <= i < ov.len() ==> (#[trigger] charts@[i])@.wf(),
            forall|i: int| 0 <= i < ov.len() ==> (#[trigger] charts@[i])@.ticks_processed
                == ov[i]@.ticks_processed + (k - from),
            forall|i: int| 0 <= i < ov.len()
                ==> (#[trigger] ov[i])@.ticks_processed + (to - from) <= u64::MAX,
            charts_ok(ov),
        decreases to - k,
    {
        proof {
            assert(ticks@.subrange(from as int, k + 1) =~= ticks@.subrange(from as int,
                k as int).push(ticks@[k as int]));
            assert forall|i: int| 0 <= i < ov.len() implies chart_fold(#[trigger] ov[i]@,
                ticks@.subrange(from as int, k + 1)) == chart_step(charts@[i]@,
                ticks@[k as int]) by {
                lemma_chart_fold_snoc(ov[i]@, ticks@.subrange(from as int, k as int),
                    ticks@[k as int]);
            }
            assert(charts_ok(charts@)) by {
                assert forall|j: int| 0 <= j < charts_views(charts@).len() implies (
                    #[trigger] charts_views(charts@)[j]).wf() by {
                    assert(charts_views(charts@)[j] == charts@[j]@);
                }
            }
        }
        let t = ticks[k];
        step_all_charts(charts, &t);
        k += 1;
    }
}

/// Whether every chart in the vector reports a full window.
fn all_have_full_data(charts: &Vec<Chart>) -> (r: bool)
    ensures
        r == all_charts_full(charts_views(charts@)),
{
    let mut i: usize = 0;
    while i < charts.len()
        invariant
            i <= charts@.len(),
            forall|j: int| 0 <= j < i ==> (#[trigger] charts@[j])@.has_full(),
        decreases charts@.len() - i,
    {
        if !charts[i].has_full_data() {
            proof {
                assert(charts_views(charts@)[i as int] == charts@[i as int]@);
            }
            return false;
        }
        i += 1;
    }
    proof {
        assert forall|j: int| 0 <= j < charts_views(charts@).len() implies (#[trigger] charts_views(
            charts@)[j]).has_full() by {
            assert(charts_views(charts@)[j] == charts@[j]@);
        }
    }
    true
}

/// The warm-up phase: consumes ticks, one by one, until every chart
/// reports full data (checked after each tick) or the stream ends; the
/// charts end exactly at the fold of what was consumed.
pub fn warm_up(charts: &mut Vec<Chart>, ticks: &Vec<Tick>, start: usize) -> (end: usize)
    requires
        start <= ticks@.len(),
        charts_ok(old(charts)@),
        ticks_wf(ticks@),
        forall|i: int| 0 <= i < old(charts)@.len()
            ==> (#[trigger] old(charts)@[i])@.ticks_processed + (ticks@.len() - start)
                <= u64::MAX,
    ensures
        start <= end <= ticks@.len(),
        final(charts)@.len() == old(charts)@.len(),
        forall|i: int| 0 <= i < old(charts)@.len()
            ==> (#[trigger] final(charts)@[i])@ == chart_fold(old(charts)@[i]@,
                ticks@.subrange(start as int, end as int)),
        charts_ok(final(charts)@),
        end == ticks@.len() || all_charts_full(charts_views(final(charts)@)),
        end == spec_warm_end(charts_views(old(charts)@), ticks@, start as int),
        forall|k: int| start < k < end ==> !all_charts_full(charts_fold_all(
            charts_views(old(charts)@), ticks@.subrange(start as int, k))),
        forall|i: int| 0 <= i < old(charts)@.len()
            ==> (#[trigger] final(charts)@[i])@.ticks_processed
                == old(charts)@[i]@.ticks_processed + (end - start),
{
    let ghost ov = old(charts)@;
    let mut k: usize = start;
    let mut done = false;
    proof {
        assert(ticks@.subrange(start as int, start as int) =~= Seq::<Tick>::empty());
    }
    while k < ticks.len() && !done
        invariant
            ov == old(charts)@,
            start <= k <= ticks@.len(),
            charts@.len() == ov.len(),
            ticks_wf(ticks@),
            forall|i: int| 0 <= i < ov.len() ==> (#[trigger] charts@[i])@ == chart_fold(
                ov[i]@, ticks@.subrange(start as int, k as int)),
            forall|i: int| 0 <= i < ov.len() ==> (#[trigger] charts@[i])@.wf(),
            forall|i: int| 0 <= i < ov.len() ==> (#[trigger] charts@[i])@.ticks_processed
                == ov[i]@.ticks_processed + (k - start),
            forall|i: int| 0 <= i < ov.len()
                ==> (#[trigger] ov[i])@.ticks_processed + (ticks@.len() - start) <= u64::MAX,
            charts_ok(ov),
            done ==> all_charts_full(charts_views(charts@)),
            done ==> k > start,
            !done ==> spec_warm_end(charts_views(ov), ticks@, start as int)
                == spec_warm_scan(charts_views(ov), ticks@, start as int, k as int),
            done ==> spec_warm_end(charts_views(ov), ticks@, start as int) == k,
            forall|j: int| start < j < k ==> !all_charts_full(charts_fold_all(
                charts_views(ov), ticks@.subrange(start as int, j))),
            !done && k > start ==> !all_charts_full(charts_fold_all(charts_views(ov),
                ticks@.subrange(start as int, k as int))),
        decreases ticks@.len() - k,
    {
        proof {
            assert(ticks@.subrange(start as int, k + 1) =~= ticks@.subrange(start as int,
                k as int).push(ticks@[k as int]));
            assert forall|i: int| 0 <= i < ov.len() implies chart_fold(#[trigger] ov[i]@,
                ticks@.subrange(start as int, k + 1)) == chart_step(charts@[i]@,
                ticks@[k as int]) by {
                lemma_chart_fold_snoc(ov[i]@, ticks@.subrange(start as int, k as int),
                    ticks@[k as int]);
            }
            assert(charts_ok(charts@)) by {
                assert forall|j: int| 0 <= j < charts_views(charts@).len() implies (
                    #[trigger] charts_views(charts@)[j]).wf() by {
                    assert(charts_views(charts@)[j] == charts@[j]@);
                }
            }
        }
        let t = ticks[k];
        step_all_charts(charts, &t);
        k += 1;
        if all_have_full_data(charts) {
            done = true;
        }
        proof {
            assert(charts_fold_all(charts_views(ov), ticks@.subrange(start as int, k as int))
                =~= charts_views(charts@)) by {
                let cf = charts_fold_all(charts_views(ov), ticks@.subrange(start as int,
                    k as int));
                let cv = charts_views(charts@);
                assert forall|i: int| 0 <= i < cf.len() implies cf[i] == cv[i] by {
                    assert(cf[i] == chart_fold(charts_views(ov)[i], ticks@.subrange(
                        start as int, k as int)));
                    assert(charts_views(ov)[i] == ov[i]@);
                    assert(cv[i] == charts@[i]@);
                }
            }
            if !done {
                assert(!all_charts_full(charts_views(charts@)));
                assert(spec_warm_scan(charts_views(ov), ticks@, start as int, k - 1)
                    == spec_warm_scan(charts_views(ov), ticks@, start as int, k as int));
            } else {
                assert(all_charts_full(charts_fold_all(charts_views(ov), ticks@.subrange(
                    start as int, k as int))));
                assert(spec_warm_scan(charts_views(ov), ticks@, start as int, k - 1) == k);
            }
        }
    }
    k
}

/// Whether a tick at index `j` in `(start, k]` already showed a different
/// day-of-month than the tick at `start`: the day-changed latch of the
/// calendar alignment phase.
pub open spec fn day_changed_by(ts: Seq<Tick>, start: int, k: int) -> bool {
    exists|j: int| start < j <= k && (#[trigger] ts[j]).time.day != ts[start].time.day
}

/// A tick that ends the calendar alignment: it falls on a Sunday and a
/// day change has been seen at or before it.
pub open spec fn aligns(ts: Seq<Tick>, start: int, k: int) -> bool {
    &&& day_changed_by(ts, start, k)
    &&& spec_day_of_week(ts[k].time.year as int, ts[k].time.month as int,
        ts[k].time.day as int) == 0
}

/// The calendar-alignment scan, probing from position `k` on: one past
/// the first tick at or after `k` that aligns, or nothing when no tick
/// in the stream does.
pub open spec fn spec_align_scan(ts: Seq<Tick>, start: int, k: int) -> Option<int>
    decreases ts.len() - k,
{
    if k >= ts.len() || k < start {
        None
    } else if aligns(ts, start, k) {
        Some(k + 1)
    } else {
        spec_align_scan(ts, start, k + 1)
    }
}

/// Where the calendar-alignment phase that scans from `start` ends, or
/// nothing when it exhausts the stream.
pub open spec fn spec_align_end(ts: Seq<Tick>, start: int) -> Option<int> {
    spec_align_scan(ts, start, start)
}

/// The calendar alignment phase: consumes ticks until the first Sunday
/// strictly after a day-of-month change, folding every consumed tick into
/// the charts; an exhausted stream is a fatal stream error.
pub fn advance_to_sunday(charts: &mut Vec<Chart>, ticks: &Vec<Tick>, start: usize) -> (r: Result<
    usize,
    RunError,
>)
    requires
        start <= ticks@.len(),
        charts_ok(old(charts)@),
        ticks_wf(ticks@),
        forall|i: int| 0 <= i < old(charts)@.len()
            ==> (#[trigger] old(charts)@[i])@.ticks_processed + (ticks@.len() - start)
                <= u64::MAX,
    ensures
        final(charts)@.len() == old(charts)@.len(),
        charts_ok(final(charts)@),
        r is Ok <==> spec_align_end(ticks@, start as int) is Some,
        r is Ok ==> spec_align_end(ticks@, start as int) == Some(r->Ok_0 as int),
        r is Ok ==> {
            let e = r->Ok_0 as int;
            &&& start < e <= ticks@.len()
            &&& aligns(ticks@, start as int, e - 1)
            &&& forall|m: int| start < m < e - 1 ==> !aligns(ticks@, start as int, m)
            &&& forall|i: int| 0 <= i < old(charts)@.len()
                ==> (#[trigger] final(charts)@[i])@ == chart_fold(old(charts)@[i]@,
                    ticks@.subrange(start as int, e))
            &&& forall|i: int| 0 <= i < old(charts)@.len()
                ==> (#[trigger] final(charts)@[i])@.ticks_processed
                    == old(charts)@[i]@.ticks_processed + (e - start)
        },
        r is Err ==> {
            &&& r->Err_0 == RunError::NoSundayFound
            &&& forall|m: int| start < m < ticks@.len() ==> !aligns(ticks@, start as int, m)
            &&& forall|i: int| 0 <= i < old(charts)@.len()
                ==> (#[trigger] final(charts)@[i])@ == chart_fold(old(charts)@[i]@,
                    ticks@.subrange(start as int, ticks@.len() as int))
            &&& forall|i: int| 0 <= i < old(charts)@.len()
                ==> (#[trigger] final(charts)@[i])@.ticks_processed
                    == old(charts)@[i]@.ticks_processed + (ticks@.len() - start)
        },
{
    let ghost ov = old(charts)@;
    let mut k: usize = start;
    proof {
        assert(ticks@.subrange(start as int, start as int) =~= Seq::<Tick>::empty());
    }
    while k < ticks.len()
        invariant
            ov == old(charts)@,
            start <= k <= ticks@.len(),
            charts@.len() == ov.len(),
            ticks_wf(ticks@),
            forall|i: int| 0 <= i < ov.len() ==> (#[trigger] charts@[i])@ == chart_fold(
                ov[i]@, ticks@.subrange(start as int, k as int)),
            forall|i: int| 0 <= i < ov.len() ==> (#[trigger] charts@[i])@.wf(),
            forall|i: int| 0 <= i < ov.len() ==> (#[trigger] charts@[i])@.ticks_processed
                == ov[i]@.ticks_processed + (k - start),
            forall|i: int| 0 <= i < ov.len()
                ==> (#[trigger] ov[i])@.ticks_processed + (ticks@.len() - start) <= u64::MAX,
            charts_ok(ov),
            forall|m: int| start < m < k ==> !aligns(ticks@, start as int, m),
            spec_align_end(ticks@, start as int) == spec_align_scan(ticks@, start as int,
                k as int),
        decreases ticks@.len() - k,
    {
        proof {
            assert(ticks@.subrange(start as int, k + 1) =~= ticks@.subrange(start as int,
                k as int).push(ticks@[k as int]));
            assert forall|i: int| 0 <= i < ov.len() implies chart_fold(#[trigger] ov[i]@,
                ticks@.subrange(start as int, k + 1)) == chart_step(charts@[i]@,
                ticks@[k as int]) by {
                lemma_chart_fold_snoc(ov[i]@, ticks@.subrange(start as int, k as int),
                    ticks@[k as int]);
            }
            assert(charts_ok(charts@)) by {
                assert forall|j: int| 0 <= j < charts_views(charts@).len() implies (
                    #[trigger] charts_views(charts@)[j]).wf() by {
                    assert(charts_views(charts@)[j] == charts@[j]@);
                }
            }
        }
        let t = ticks[k];
        step_all_charts(charts, &t);
        if k > start {
            let day_changed = day_changed_up_to(ticks, start, k);
            if day_changed && t.is_sunday() {
                proof {
                    assert(aligns(ticks@, start as int, k as int));
                }
                return Ok(k + 1);
            }
        }
        proof {
            assert(!aligns(ticks@, start as int, k as int));
            assert(spec_align_scan(ticks@, start as int, k as int) == spec_align_scan(ticks@,
                start as int, k + 1));
        }
        k += 1;
    }
    Err(RunError::NoSundayFound)
}

/// Whether any tick in `(start, k]` shows a different day-of-month than
/// the tick at `start`.
fn day_changed_up_to(ticks: &Vec<Tick>, start: usize, k: usize) -> (r: bool)
    requires
        start <= k < ticks@.len(),
    ensures
        r == day_changed_by(ticks@, start as int, k as int),
{
    let n = ticks.len();
    let mut j: usize = start + 1;
    while j <= k
        invariant
            start + 1 <= j <= k + 1,
            k < n == ticks@.len(),
            forall|m: int| start < m < j ==> (#[trigger] ticks@[m]).time.day
                == ticks@[start as int].time.day,
        decreases k + 1 - j,
    {
        if ticks[j].time.day != ticks[start].time.day {
            return true;
        }
        j += 1;
    }
    false
}

// ----- window day counting --------------------------------------------------

/// How many of these ticks enter the current window, counting distinct
/// calendar days: a day boundary is any tick whose day-of-month differs
/// from the previous tick's; every sixth distinct day counts double,
/// skipping the weekend gap that carries no tick data; the tick that
/// completes the day target is excluded.
pub open spec fn spec_window_take(ts: Seq<Tick>, cur_day: int, days: int, target: int) -> int
    decreases ts.len(),
{
    if ts.len() == 0 {
        0
    } else if ts[0].time.day == cur_day {
        1 + spec_window_take(ts.skip(1), cur_day, days, target)
    } else {
        let d1 = days + 1;
        let d2: int = if d1 % 6 == 0 {
            d1 + 1
        } else {
            d1
        };
        if d2 >= target {
            0
        } else {
            1 + spec_window_take(ts.skip(1), ts[0].time.day as int, d2, target)
        }
    }
}

/// Whether the scan above ended by reaching the day target (true) or by
/// exhausting the ticks (false).
pub open spec fn spec_window_hit(ts: Seq<Tick>, cur_day: int, days: int, target: int) -> bool
    decreases ts.len(),
{
    if ts.len() == 0 {
        false
    } else if ts[0].time.day == cur_day {
        spec_window_hit(ts.skip(1), cur_day, days, target)
    } else {
        let d1 = days + 1;
        let d2: int = if d1 % 6 == 0 {
            d1 + 1
        } else {
            d1
        };
        if d2 >= target {
            true
        } else {
            spec_window_hit(ts.skip(1), ts[0].time.day as int, d2, target)
        }
    }
}

/// Index one past the window's last tick.
pub open spec fn spec_window_end(ts: Seq<Tick>, start: int, target: int) -> int {
    if start >= ts.len() {
        start
    } else {
        start + 1 + spec_window_take(ts.skip(start + 1), ts[start].time.day as int, 0, target)
    }
}

/// The stream cursor after the window: one past the window when the
/// boundary tick was consumed to complete the day target, the window end
/// itself when the stream ran out.
pub open spec fn spec_window_cursor(ts: Seq<Tick>, start: int, target: int) -> int {
    if start >= ts.len() {
        start
    } else if spec_window_hit(ts.skip(start + 1), ts[start].time.day as int, 0, target) {
        spec_window_end(ts, start, target) + 1
    } else {
        spec_window_end(ts, start, target)
    }
}

proof fn lemma_window_take_bound(ts: Seq<Tick>, cur_day: int, days: int, target: int)
    ensures
        0 <= spec_window_take(ts, cur_day, days, target) <= ts.len(),
        spec_window_hit(ts, cur_day, days, target) ==> spec_window_take(ts, cur_day, days,
            target) < ts.len(),
    decreases ts.len(),
{
    if ts.len() > 0 {
        lemma_window_take_bound(ts.skip(1), cur_day, days, target);
        let d1 = days + 1;
        let d2: int = if d1 % 6 == 0 {
            d1 + 1
        } else {
            d1
        };
        if ts[0].time.day != cur_day && d2 < target {
            lemma_window_take_bound(ts.skip(1), ts[0].time.day as int, d2, target);
        }
    }
}

/// Scans one sample window from `start`: consumes the first tick, then
/// counts distinct calendar days, skipping every implied weekend day,
/// until the configured target is reached or the stream ends.  Returns
/// the window end and the cursor the stream continues from.
pub fn sample_window(ticks: &Vec<Tick>, start: usize, target_days: i64) -> (r: (usize, usize))
    requires
        start <= ticks@.len(),
        ticks@.len() <= TRADES_MAX,
    ensures
        r.0 == spec_window_end(ticks@, start as int, target_days as int),
        r.1 == spec_window_cursor(ticks@, start as int, target_days as int),
        start <= r.0 <= r.1 <= ticks@.len(),
{
    proof {
        if (start as int) < ticks@.len() {
            lemma_window_take_bound(ticks@.skip(start + 1),
                ticks@[start as int].time.day as int, 0, target_days as int);
        }
    }
    if start >= ticks.len() {
        return (start, start);
    }
    let mut cur_day: u8 = ticks[start].time.day;
    let mut days: i64 = 0;
    let mut i: usize = start + 1;
    let ghost t0 = ticks@[start as int].time.day as int;
    while i < ticks.len()
        invariant
            start < ticks@.len(),
            start + 1 <= i <= ticks@.len(),
            t0 == ticks@[start as int].time.day as int,
            ticks@.len() <= TRADES_MAX,
            0 <= days <= 2 * (i - start),
            spec_window_take(ticks@.skip(start + 1), t0, 0, target_days as int) == (i - start
                - 1) + spec_window_take(ticks@.skip(i as int), cur_day as int, days as int,
                target_days as int),
            spec_window_hit(ticks@.skip(start + 1), t0, 0, target_days as int)
                == spec_window_hit(ticks@.skip(i as int), cur_day as int, days as int,
                target_days as int),
            spec_window_take(ticks@.skip(i as int), cur_day as int, days as int,
                target_days as int) <= ticks@.len() - i,
        decreases ticks@.len() - i,
    {
        proof {
            assert(ticks@.skip(i as int)[0] == ticks@[i as int]);
            assert(ticks@.skip(i as int).skip(1) =~= ticks@.skip(i + 1));
            lemma_window_take_bound(ticks@.skip(i + 1), cur_day as int, days as int,
                target_days as int);
        }
        if ticks[i].time.day != cur_day {
            let d1 = days + 1;
            let d2: i64 = if d1 % 6 == 0 {
                d1 + 1
            } else {
                d1
            };
            if d2 >= target_days {
                proof {
                    assert(spec_window_take(ticks@.skip(i as int), cur_day as int, days as int,
                        target_days as int) == 0);
                    assert(spec_window_hit(ticks@.skip(i as int), cur_day as int, days as int,
                        target_days as int));
                }
                return (i, i + 1);
            }
            cur_day = ticks[i].time.day;
            days = d2;
            proof {
                lemma_window_take_bound(ticks@.skip(i + 1), cur_day as int, days as int,
                    target_days as int);
            }
        }
        i += 1;
    }
    proof {
        assert(ticks@.skip(i as int).len() == 0);
    }
    (i, i)
}

// ----- the walk-forward driver ----------------------------------------------

/// The trial count the optimizer actually runs per step: a negative
/// configured count means none.
pub open spec fn spec_trial_count(iterations: i64) -> int {
    if iterations > 0 {
        iterations as int
    } else {
        0
    }
}

/// The position the stream stands at when step `s` begins its in-sample
/// window: step one starts where the calendar alignment ended, and every
/// later step starts where an out-of-sample window scanned from the
/// previous step's start leaves the cursor.
pub open spec fn spec_step_start(ts: Seq<Tick>, p0: int, out_days: int, s: int) -> int
    decreases s,
{
    if s <= 1 {
        p0
    } else {
        spec_window_cursor(ts, spec_step_start(ts, p0, out_days, s - 1), out_days)
    }
}

/// Whether the step that begins at `start` runs into an empty window:
/// its in-sample window is empty, or the out-of-sample window that
/// follows it is.
pub open spec fn spec_step_hits_empty(
    ts: Seq<Tick>,
    start: int,
    in_days: int,
    out_days: int,
) -> bool {
    ||| spec_window_end(ts, start, in_days) == start
    ||| ({
        let q = spec_window_cursor(ts, start, in_days);
        spec_window_end(ts, q, out_days) == q
    })
}

/// Enough id headroom for one more step: `base` ids were available, the
/// completed steps used at most `(step - 1) * (it + 1)`, and a step uses
/// at most `it + 1` more.
proof fn lemma_id_headroom(base: int, step: int, steps: int, it: int, cap: int)
    by (nonlinear_arith)
    requires
        1 <= step <= steps,
        0 <= it,
        base + (steps + 1) * (it + 1) <= cap,
    ensures
        base + (step - 1) * (it + 1) + (it + 1) <= cap,
        (step - 1) * (it + 1) + (it + 1) == step * (it + 1),
{
}

/// What one walk-forward run reports: the out-of-sample score of every
/// completed step, and the failure that stopped the run early, if any.
pub struct WalkForwardReport {
    pub scores: Vec<Ratio>,
    pub failure: Option<RunError>,
}

/// The top-level walk-forward loop.  Per step: count an in-sample window
/// of calendar days, optimize over it against clones of the charts,
/// replay the window into the charts for continuity, count the
/// out-of-sample window, and run one final pass with the optimized
/// parameters; the first step is preceded by the warm-up and the calendar
/// alignment.  A malformed configuration is refused outright; stream or
/// optimization failures end the run and are reported, not raised.
#[verifier::rlimit(100)]
pub fn run_walk_forward<S: Strategy>(
    config: &ConfigurationFile,
    strategy: &mut S,
    ticks: &Vec<Tick>,
    ids: &mut IdAllocator,
    tradelog: &mut Vec<u8>,
    ticklog: &mut Vec<u8>,
) -> (r: Result<WalkForwardReport, ConfigError>)
    requires
        config.wf(),
        // Each step replays at most two windows of at most TRADES_MAX ticks
        // into each chart, so this cap keeps every chart's 64-bit tick
        // counter within range.
        config.steps <= 1_000_000_000_000,
        // The trial count must fit the machine word, which may be 32 bits.
        config.iterations <= 0xFFFF_FFFF,
        ticks_wf(ticks@),
        ticks@.len() <= TRADES_MAX,
        // Each step consumes one simulation id per trial and one for the
        // out-of-sample pass; the allocator must not wrap.
        old(ids).next + (config.steps + 1) * (spec_trial_count(config.iterations) + 1)
            <= u64::MAX,
    ensures
        r is Err <==> !(crate::parsers::spec_parse_charts(config.charts@) is Some
            && crate::parsers::spec_parse_variables(config.variables@) is Some
            && valid_time_span(config.in_sample@) && valid_time_span(config.out_of_sample@)),
        r is Ok ==> r->Ok_0.scores@.len() <= config.steps,
        r is Ok ==> ({
            let rep = r->Ok_0;
            let cs0 = crate::parsers::spec_parse_charts(config.charts@)->Some_0;
            let ind = crate::util::spec_time_span_days(config.in_sample@);
            let outd = crate::util::spec_time_span_days(config.out_of_sample@);
            let al = spec_align_end(ticks@, spec_warm_end(cs0, ticks@, 0));
            &&& (rep.failure == Some(RunError::NoSundayFound) <==> al is None)
            &&& (rep.failure == Some(RunError::NoSundayFound) ==> rep.scores@.len() == 0)
            &&& (rep.failure is None ==> rep.scores@.len() == config.steps)
            &&& (rep.failure is Some ==> rep.scores@.len() < config.steps)
            &&& (al is Some ==> ({
                let p0 = al->Some_0;
                &&& (forall|s: int| 1 <= s <= rep.scores@.len()
                    ==> !spec_step_hits_empty(ticks@, #[trigger] spec_step_start(ticks@, p0,
                        outd, s), ind, outd))
                &&& (rep.failure == Some(RunError::EmptyWindow) ==> spec_step_hits_empty(
                    ticks@, spec_step_start(ticks@, p0, outd, rep.scores@.len() as int + 1),
                    ind,
                    outd))
            }))
        }),
{
    let mut charts = match crate::parsers::parse_charts_from_string(config.charts.as_slice()) {
        Ok(cs) => cs,
        Err(e) => {
            return Err(e);
        },
    };
    let template = match crate::parsers::parse_variables_from_string(
        config.variables.as_slice()) {
        Ok(t) => t,
        Err(e) => {
            return Err(e);
        },
    };
    let in_days = match util::config_time_to_days(config.in_sample.as_slice()) {
        Ok(d) => d,
        Err(e) => {
            return Err(e);
        },
    };
    let out_days = match util::config_time_to_days(config.out_of_sample.as_slice()) {
        Ok(d) => d,
        Err(e) => {
            return Err(e);
        },
    };
    let iterations: usize = if config.iterations < 0 {
        0
    } else {
        config.iterations as usize
    };
    let optimizer = Optimizer::new(iterations, config.jpy_base);
    let mut scores: Vec<Ratio> = Vec::new();
    let mut failure: Option<RunError> = None;
    let ghost cs0 = crate::parsers::spec_parse_charts(config.charts@)->Some_0;
    let ghost ind = crate::util::spec_time_span_days(config.in_sample@);
    let ghost outd = crate::util::spec_time_span_days(config.out_of_sample@);

    // Warm-up and calendar alignment, first step only.
    proof {
        assert(charts_ok(charts@)) by {
            assert forall|j: int| 0 <= j < charts_views(charts@).len() implies (
                #[trigger] charts_views(charts@)[j]).wf() by {
                assert(charts_views(charts@)[j] == charts@[j]@);
            }
        }
        assert(charts_views(charts@) == cs0);
    }
    let mut pos = warm_up(&mut charts, ticks, 0);
    let ghost w = pos as int;
    proof {
        assert(w == spec_warm_end(cs0, ticks@, 0));
    }
    let pos2 = match advance_to_sunday(&mut charts, ticks, pos) {
        Ok(p) => p,
        Err(e) => {
            return Ok(WalkForwardReport { scores, failure: Some(e) });
        },
    };
    pos = pos2;
    let ghost p0 = pos as int;
    proof {
        assert(spec_align_end(ticks@, w) == Some(p0));
    }
    proof {
        assert forall|i: int| 0 <= i < charts@.len() implies (
            #[trigger] charts@[i])@.ticks_processed <= 4 * 10_000_000 by {}
    }
    let mut pristine = clone_charts(&charts);
    let mut in_start: usize = pos;
    proof {
        assert forall|i: int| 0 <= i < pristine@.len() implies (
            #[trigger] pristine@[i])@.ticks_processed <= 3 * 10_000_000 by {
            assert(pristine@[i]@ == charts@[i]@);
        }
    }

    let steps: i64 = config.steps;
    let mut step: i64 = 1;
    while step <= steps
        invariant
            1 <= step <= steps + 1,
            steps == config.steps,
            steps <= 1_000_000_000_000,
            iterations == spec_trial_count(config.iterations),
            optimizer.iterations == iterations,
            optimizer.jpy_base == config.jpy_base,
            ticks_wf(ticks@),
            ticks@.len() <= TRADES_MAX,
            pos <= ticks@.len(),
            in_start <= ticks@.len(),
            template.wf(),
            charts_ok(charts@),
            charts_ok(pristine@),
            forall|i: int| 0 <= i < charts@.len() ==> (#[trigger] charts@[i])@.ticks_processed
                <= (3 + step) * 10_000_000,
            forall|i: int| 0 <= i < pristine@.len()
                ==> (#[trigger] pristine@[i])@.ticks_processed <= (2 + step) * 10_000_000,
            ids.next <= old(ids).next + (step - 1) * (iterations + 1),
            old(ids).next + (steps + 1) * (iterations + 1) <= u64::MAX,
            scores@.len() == step - 1,
            failure is None,
            crate::parsers::spec_parse_charts(config.charts@) is Some,
            crate::parsers::spec_parse_variables(config.variables@) is Some,
            valid_time_span(config.in_sample@),
            valid_time_span(config.out_of_sample@),
            cs0 == crate::parsers::spec_parse_charts(config.charts@)->Some_0,
            ind == crate::util::spec_time_span_days(config.in_sample@),
            outd == crate::util::spec_time_span_days(config.out_of_sample@),
            ind == in_days as int,
            outd == out_days as int,
            w == spec_warm_end(cs0, ticks@, 0),
            spec_align_end(ticks@, w) == Some(p0),
            step == 1 ==> pos == p0 && in_start == p0,
            step >= 2 ==> in_start == spec_step_start(ticks@, p0, outd, step - 1),
            forall|s: int| 1 <= s < step ==> !spec_step_hits_empty(ticks@,
                #[trigger] spec_step_start(ticks@, p0, outd, s), ind, outd),
        decreases steps + 1 - step,
    {
        if step > 1 {
            // Walk the pristine charts forward by one out-of-sample window
            // and restart this step's charts from them.
            pos = in_start;
            let span = sample_window(ticks, pos, out_days);
            apply_ticks_to_charts(&mut pristine, ticks, pos, span.1);
            pos = span.1;
            charts = clone_charts(&pristine);
            proof {
                assert(charts_ok(charts@)) by {
                    assert forall|j: int| 0 <= j < charts_views(charts@).len() implies (
                        #[trigger] charts_views(charts@)[j]).wf() by {
                        assert(charts_views(charts@)[j] == charts@[j]@);
                        assert(charts@[j]@ == pristine@[j]@);
                    }
                }
            }
        }

        proof {
            assert(pos as int == spec_step_start(ticks@, p0, outd, step as int));
        }

        // In-sample window.
        in_start = pos;
        let span_in = sample_window(ticks, pos, in_days);
        if span_in.0 == pos {
            proof {
                assert(spec_step_hits_empty(ticks@, spec_step_start(ticks@, p0, outd,
                    step as int), ind, outd));
            }
            failure = Some(RunError::EmptyWindow);
            return Ok(WalkForwardReport { scores, failure });
        }
        let window_in = copy_ticks(ticks, pos, span_in.0);
        proof {
            assert(ticks_wf(window_in@)) by {
                assert forall|j: int| 0 <= j < window_in@.len() implies (
                    #[trigger] window_in@[j]).wf() by {
                    assert(window_in@[j] == ticks@[pos + j]);
                }
            }
            assert(crate::algorithm::charts_headroom(charts@, window_in@.len() as int)) by {
                assert forall|i: int| 0 <= i < charts@.len() implies (
                    #[trigger] charts@[i])@.ticks_processed + window_in@.len() <= u64::MAX
                    by {}
            }
        }

        // Optimize over the in-sample window.
        proof {
            lemma_id_headroom(old(ids).next as int, step as int, steps as int,
                iterations as int, u64::MAX as int);
        }
        let vars = match optimizer.variables_for(strategy, &template, &charts, &window_in, ids,
            tradelog, ticklog) {
            Some(v) => v,
            None => {
                failure = Some(RunError::OptimizeFailed);
                return Ok(WalkForwardReport { scores, failure });
            },
        };

        // Replay the in-sample span into this step's charts for continuity.
        apply_ticks_to_charts(&mut charts, ticks, in_start, span_in.1);
        pos = span_in.1;

        // Out-of-sample window.
        let span_out = sample_window(ticks, pos, out_days);
        if span_out.0 == pos {
            proof {
                assert(pos as int == spec_window_cursor(ticks@, spec_step_start(ticks@, p0,
                    outd, step as int), ind));
                assert(spec_step_hits_empty(ticks@, spec_step_start(ticks@, p0, outd,
                    step as int), ind, outd));
            }
            failure = Some(RunError::EmptyWindow);
            return Ok(WalkForwardReport { scores, failure });
        }
        let ghost ob = pos as int;
        let window_out = copy_ticks(ticks, pos, span_out.0);
        proof {
            assert(ticks_wf(window_out@)) by {
                assert forall|j: int| 0 <= j < window_out@.len() implies (
                    #[trigger] window_out@[j]).wf() by {
                    assert(window_out@[j] == ticks@[ob + j]);
                }
            }
        }
        pos = span_out.1;

        // Execute once, non-exploratory, with the optimized parameters.
        let exec_charts = clone_charts(&charts);
        proof {
            assert(charts_ok(exec_charts@)) by {
                assert forall|j: int| 0 <= j < charts_views(exec_charts@).len() implies (
                    #[trigger] charts_views(exec_charts@)[j]).wf() by {
                    assert(charts_views(exec_charts@)[j] == exec_charts@[j]@);
                    assert(exec_charts@[j]@ == charts@[j]@);
                }
            }
        }
        let sim_id = ids.next_id();
        let mut algorithm = Algorithm::new_out_of_sample(exec_charts, config.jpy_base, sim_id);
        proof {
            assert(crate::algorithm::charts_headroom(algorithm.simulation.charts@,
                window_out@.len() as int)) by {
                assert forall|i: int| 0 <= i < algorithm.simulation.charts@.len() implies (
                    #[trigger] algorithm.simulation.charts@[i])@.ticks_processed
                    + window_out@.len() <= u64::MAX by {
                    assert(algorithm.simulation.charts@[i]@ == charts@[i]@);
                }
            }
        }
        let score = match algorithm.execute_on(strategy, &window_out, &vars, tradelog, ticklog) {
            Some(s) => s,
            None => {
                failure = Some(RunError::ExecuteFailed);
                return Ok(WalkForwardReport { scores, failure });
            },
        };
        scores.push(score);
        proof {
            assert forall|i: int| 0 <= i < charts@.len() implies (
                #[trigger] charts@[i])@.ticks_processed <= (3 + (step + 1)) * 10_000_000 by {}
            assert forall|i: int| 0 <= i < pristine@.len() implies (
                #[trigger] pristine@[i])@.ticks_processed <= (2 + (step + 1)) * 10_000_000
                by {}
            assert(!spec_step_hits_empty(ticks@, spec_step_start(ticks@, p0, outd,
                step as int), ind, outd)) by {
                assert(spec_window_end(ticks@, in_start as int, ind) == span_in.0);
                assert(spec_window_cursor(ticks@, in_start as int, ind) == span_in.1);
                assert(spec_window_end(ticks@, span_in.1 as int, outd) == span_out.0);
            }
        }
        step += 1;
    }
    Ok(WalkForwardReport { scores, failure })
}

/// The ticks `from..to` as their own vector.
pub fn copy_ticks(ticks: &Vec<Tick>, from: usize, to: usize) -> (r: Vec<Tick>)
    requires
        from <= to <= ticks@.len(),
    ensures
        r@ == ticks@.subrange(from as int, to as int),
{
    let mut out: Vec<Tick> = Vec::new();
    let mut i: usize = from;
    while i < to
        invariant
            from <= i <= to <= ticks@.len(),
            out@ =~= ticks@.subrange(from as int, i as int),
        decreases to - i,
    {
        let t = ticks[i];
        out.push(t);
        i += 1;
    }
    proof {
        assert(out@ =~= ticks@.subrange(from as int, to as int));
    }
    out
}

} // verus!
