use backtester::algorithm::Algorithm;
use backtester::chart::clone_charts;
use backtester::config::ConfigurationFile;
use backtester::driver::{
    advance_to_sunday, apply_ticks_to_charts, run_walk_forward, sample_window, warm_up,
};
use backtester::errors::RunError;
use backtester::parsers::parse_charts_from_string;
use backtester::range_bound_variable::RangeBoundVariables;
use backtester::simulation::IdAllocator;
use backtester::strategy::{Strategy, TradeDecision};
use backtester::simulation::Simulation;
use backtester::tick::{Tick, TickTime};

fn mk(month: u8, day: u8, hour: u8, minute: u8, second: u8, bid: u64, ask: u64) -> Tick {
    Tick::new(TickTime { year: 2014, month, day, hour, minute, second }, bid, ask)
}

/// Opens one long position on the first decision of each pass and then
/// stays quiet; the engine's end-of-window force-close does the rest.
struct OpenOnce {
    opened: bool,
}

impl Strategy for OpenOnce {
    fn setup(&mut self, _vars: &RangeBoundVariables) {
        self.opened = false;
    }

    fn on_tick(&mut self, _sim: &Simulation, _tick: &Tick) -> TradeDecision {
        if self.opened {
            TradeDecision::NOOP
        } else {
            self.opened = true;
            TradeDecision::LONG
        }
    }

    fn teardown(&mut self) {}
}

#[test]
fn weekday_day_counting_skips_the_weekend_gap() {
    // Three-plus weeks of weekday-only data, two ticks per date.  A
    // window target of 14 days crosses 12 real date boundaries: every
    // sixth count doubles, standing in for the weekend days that carry
    // no ticks, so the Friday-to-Monday jump never breaks continuity.
    let dates: [u8; 20] = [6, 7, 8, 9, 10, 13, 14, 15, 16, 17, 20, 21, 22, 23, 24, 27, 28,
        29, 30, 31];
    let mut ticks: Vec<Tick> = Vec::new();
    for d in dates.iter() {
        ticks.push(mk(1, *d, 1, 0, 0, 100_000, 100_010));
        ticks.push(mk(1, *d, 2, 0, 0, 100_005, 100_015));
    }
    let (end, cursor) = sample_window(&ticks, 0, 14);
    // Twelve whole dates consumed: the window ends at the first tick of
    // the thirteenth date (January 22), which itself is consumed but
    // excluded from the window.
    assert_eq!(end, 24);
    assert_eq!(cursor, 25);
    let mut distinct = 1;
    for w in 1..end {
        if ticks[w].time.day != ticks[w - 1].time.day {
            distinct += 1;
        }
    }
    assert_eq!(distinct, 12);
}

#[test]
fn window_exhaustion_returns_the_stream_end() {
    let ticks = vec![
        mk(1, 6, 1, 0, 0, 100_000, 100_010),
        mk(1, 7, 1, 0, 0, 100_000, 100_010),
    ];
    let (end, cursor) = sample_window(&ticks, 0, 14);
    assert_eq!(end, 2);
    assert_eq!(cursor, 2);
    assert_eq!(sample_window(&ticks, 2, 14), (2, 2));
}

#[test]
fn warm_up_stops_as_soon_as_every_chart_is_full() {
    let mut charts = parse_charts_from_string(b"candlestick,M1,2|sma,2\n").unwrap();
    let mut ticks: Vec<Tick> = Vec::new();
    for minute in 0..6u8 {
        ticks.push(mk(1, 6, 1, minute, 0, 100_000, 100_010));
    }
    let end = warm_up(&mut charts, &ticks, 0);
    // Capacity 3: full right after the third minute opens its candle.
    assert_eq!(end, 3);
    assert!(charts[0].has_full_data());
    assert_eq!(charts[0].get_ticks_processed(), 3);
}

#[test]
fn sunday_alignment_needs_a_day_change_first() {
    // Jan 5, 2014 was a Sunday.  The first tick only sets the starting
    // day; the Sunday tick after a day change ends the phase.
    let ticks = vec![
        mk(1, 2, 10, 0, 0, 100_000, 100_010),
        mk(1, 3, 10, 0, 0, 100_000, 100_010),
        mk(1, 5, 10, 0, 0, 100_000, 100_010),
        mk(1, 6, 10, 0, 0, 100_000, 100_010),
    ];
    let mut charts: Vec<backtester::chart::Chart> = Vec::new();
    let r = advance_to_sunday(&mut charts, &ticks, 0);
    assert_eq!(r.unwrap(), 3);

    // Without any Sunday the phase is a fatal stream error.
    let weekdays = vec![
        mk(1, 2, 10, 0, 0, 100_000, 100_010),
        mk(1, 3, 10, 0, 0, 100_000, 100_010),
        mk(1, 6, 10, 0, 0, 100_000, 100_010),
    ];
    let mut charts2: Vec<backtester::chart::Chart> = Vec::new();
    assert!(advance_to_sunday(&mut charts2, &weekdays, 0).is_err());
}

#[test]
fn breach_stops_the_pass_before_the_next_tick() {
    // One M1 chart of capacity 2; the strategy opens a long as soon as
    // the chart is full; the next tick collapses the price far past the
    // -10% drawdown limit.  The pass must stop dead on that tick: later
    // ticks never reach the charts, and no score is produced.
    let charts = parse_charts_from_string(b"candlestick,M1,1|sma,1\n").unwrap();
    let ticks = vec![
        mk(1, 6, 1, 0, 0, 500_000, 500_000),
        mk(1, 6, 1, 1, 0, 500_000, 500_000),
        mk(1, 6, 1, 2, 0, 350_000, 350_000),
        mk(1, 6, 1, 3, 0, 500_000, 500_000),
        mk(1, 6, 1, 4, 0, 500_000, 500_000),
    ];
    let mut strategy = OpenOnce { opened: false };
    let vars = RangeBoundVariables::new();
    let mut tradelog: Vec<u8> = Vec::new();
    let mut ticklog: Vec<u8> = Vec::new();
    let mut algorithm = Algorithm::new_in_sample(charts, false, 1);
    let score = algorithm.execute_on(&mut strategy, &ticks, &vars, &mut tradelog,
        &mut ticklog);
    assert!(score.is_none());
    assert!(algorithm.simulation.has_exceeded_max_drawdown());
    // The chart saw the breaching tick but nothing after it.
    assert_eq!(algorithm.simulation.charts[0].get_ticks_processed(), 3);
}

#[test]
fn replay_reproduces_the_unrewound_chart_state() {
    // Applying a span, rewinding to a pristine copy and re-applying the
    // same span lands on identical chart state.
    let charts0 = parse_charts_from_string(b"candlestick,M1,2|sma,2\n").unwrap();
    let mut ticks: Vec<Tick> = Vec::new();
    for minute in 0..8u8 {
        ticks.push(mk(1, 6, 1, minute, 0, 100_000 + minute as u64 * 7, 100_050));
    }
    let mut once = clone_charts(&charts0);
    apply_ticks_to_charts(&mut once, &ticks, 0, 8);
    let mut twice = clone_charts(&charts0);
    apply_ticks_to_charts(&mut twice, &ticks, 0, 5);
    let mut resumed = clone_charts(&charts0);
    apply_ticks_to_charts(&mut resumed, &ticks, 0, 5);
    apply_ticks_to_charts(&mut resumed, &ticks, 5, 8);
    let _ = &mut twice;
    assert_eq!(once[0].candles, resumed[0].candles);
    assert_eq!(once[0].get_ticks_processed(), resumed[0].get_ticks_processed());
}

#[test]
fn walk_forward_end_to_end_single_step() {
    // A synthetic four-week tick series, one chart, one float variable,
    // one-week windows, one step, five trials, and a strategy that opens
    // a long on its first decision and holds to the end of the window:
    // exactly one closed trade per pass, and the out-of-sample score is
    // the move from the first ask to the last bid of its window.
    let mut ticks: Vec<Tick> = Vec::new();
    for day_index in 0..30u8 {
        let (month, day) = if day_index < 30 {
            (1u8, 2 + day_index)
        } else {
            (2u8, day_index - 29)
        };
        for minute in 0..8u8 {
            let p = 100_000 + day_index as u64 * 100 + minute as u64;
            ticks.push(mk(month, day, 0, minute, 0, p, p));
        }
    }
    let config = ConfigurationFile::new(
        b"ticks.csv".to_vec(),
        b"candlestick,M1,5|sma,3\n".to_vec(),
        b"threshold,float,0.0,1.0\n".to_vec(),
        b"1 week".to_vec(),
        b"1 week".to_vec(),
        5,
        1,
        Vec::new(),
    )
    .unwrap();
    let mut strategy = OpenOnce { opened: false };
    let mut ids = IdAllocator::new();
    let mut tradelog: Vec<u8> = Vec::new();
    let mut ticklog: Vec<u8> = Vec::new();
    let report = run_walk_forward(&config, &mut strategy, &ticks, &mut ids, &mut tradelog,
        &mut ticklog)
        .unwrap();
    assert!(report.failure.is_none());
    assert_eq!(report.scores.len(), 1);

    // Recompute the out-of-sample window with the same verified phases.
    let mut probe = parse_charts_from_string(b"candlestick,M1,5|sma,3\n").unwrap();
    let p1 = warm_up(&mut probe, &ticks, 0);
    let p2 = advance_to_sunday(&mut probe, &ticks, p1).unwrap();
    let span_in = sample_window(&ticks, p2, 7);
    let span_out = sample_window(&ticks, span_in.1, 7);
    assert!(span_in.1 < span_out.0);
    let open_ask = ticks[span_in.1].ask;
    let close_bid = ticks[span_out.0 - 1].bid;
    let expected_mp = 100 * (close_bid as i64 - open_ask as i64);

    let score = report.scores[0];
    // Exactly one closed trade: the denominator is the trade count.
    assert_eq!(score.den, 1);
    assert_eq!(score.num, expected_mp);
}

#[test]
fn walk_forward_refuses_a_malformed_configuration() {
    let bad = ConfigurationFile::new(
        Vec::new(),
        b"candlestick,M9,5|sma,3\n".to_vec(),
        b"threshold,float,0.0,1.0\n".to_vec(),
        b"1 week".to_vec(),
        b"1 week".to_vec(),
        1,
        1,
        Vec::new(),
    )
    .unwrap();
    let mut strategy = OpenOnce { opened: false };
    let mut ids = IdAllocator::new();
    let mut tl: Vec<u8> = Vec::new();
    let mut kl: Vec<u8> = Vec::new();
    let ticks: Vec<Tick> = Vec::new();
    assert!(run_walk_forward(&bad, &mut strategy, &ticks, &mut ids, &mut tl, &mut kl)
        .is_err());
    assert!(ConfigurationFile::new(Vec::new(), Vec::new(), Vec::new(), Vec::new(),
        Vec::new(), 1, 0, Vec::new()).is_err());
}

#[test]
fn walk_forward_reports_a_missing_sunday_as_a_run_failure() {
    // Weekday-only ticks: warm-up succeeds, alignment never finds its
    // Sunday, and the run stops with a reported failure, not a crash.
    let mut ticks: Vec<Tick> = Vec::new();
    for day in [6u8, 7, 8].iter() {
        for minute in 0..8u8 {
            ticks.push(mk(1, *day, 0, minute, 0, 100_000, 100_000));
        }
    }
    let config = ConfigurationFile::new(
        Vec::new(),
        b"candlestick,M1,5|sma,3\n".to_vec(),
        b"threshold,float,0.0,1.0\n".to_vec(),
        b"1 week".to_vec(),
        b"1 week".to_vec(),
        1,
        1,
        Vec::new(),
    )
    .unwrap();
    let mut strategy = OpenOnce { opened: false };
    let mut ids = IdAllocator::new();
    let mut tl: Vec<u8> = Vec::new();
    let mut kl: Vec<u8> = Vec::new();
    let report = run_walk_forward(&config, &mut strategy, &ticks, &mut ids, &mut tl, &mut kl)
        .unwrap();
    assert!(report.failure.is_some());
    assert_eq!(report.scores.len(), 0);
}

#[test]
fn walk_forward_with_zero_trials_reports_a_failed_optimization() {
    // With no trials configured the optimizer can never hand back an
    // assignment, so the first step fails on the in-sample optimization
    // and no score is produced.
    let mut ticks: Vec<Tick> = Vec::new();
    for day_index in 0..30u8 {
        for minute in 0..8u8 {
            let p = 100_000 + day_index as u64 * 100 + minute as u64;
            ticks.push(mk(1, 2 + day_index, 0, minute, 0, p, p));
        }
    }
    let config = ConfigurationFile::new(
        Vec::new(),
        b"candlestick,M1,5|sma,3\n".to_vec(),
        b"threshold,float,0.0,1.0\n".to_vec(),
        b"1 week".to_vec(),
        b"1 week".to_vec(),
        0,
        1,
        Vec::new(),
    )
    .unwrap();
    let mut strategy = OpenOnce { opened: false };
    let mut ids = IdAllocator::new();
    let mut tl: Vec<u8> = Vec::new();
    let mut kl: Vec<u8> = Vec::new();
    let report = run_walk_forward(&config, &mut strategy, &ticks, &mut ids, &mut tl, &mut kl)
        .unwrap();
    assert_eq!(report.failure, Some(RunError::OptimizeFailed));
    assert_eq!(report.scores.len(), 0);
}
