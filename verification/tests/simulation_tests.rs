use backtester::errors::TradeError;
use backtester::simulation::{Simulation, DEPOSIT_MP};
use backtester::tick::{Tick, TickTime};
use backtester::trade::Trade;

fn tick(minute: u8, second: u8, bid: u64, ask: u64) -> Tick {
    Tick::new(
        TickTime { year: 2014, month: 1, day: 2, hour: 5, minute, second },
        bid,
        ask,
    )
}

fn fresh_sim() -> Simulation {
    Simulation::new(Vec::new(), true, false, 1)
}

#[test]
fn pip_expectancy_fails_while_any_trade_is_open() {
    let mut sim = fresh_sim();
    sim.open_long_trade(&tick(0, 1, 100_000, 100_100));
    assert!(matches!(sim.pip_expectancy(), Err(TradeError::OpenTradesRemain)));
}

#[test]
fn expectancy_of_two_closed_trades_is_their_mean() {
    // Two closed trades with profits +15 and -5 pips: expectancy 5.0 pips.
    // In millipips: +15000 and -5000, so the exact rational is 10000/2.
    let mut sim = fresh_sim();
    // Long filled at ask 100_000; closed at bid 100_150: +150 units = +15 pips.
    sim.open_long_trade(&tick(0, 1, 100_000, 100_000));
    sim.close_all_open_trades(&tick(0, 30, 100_150, 100_160));
    // Long filled at ask 100_000; closed at bid 99_950: -50 units = -5 pips.
    sim.open_long_trade(&tick(1, 1, 100_000, 100_000));
    sim.close_all_open_trades(&tick(1, 30, 99_950, 99_960));
    assert_eq!(sim.closed_trades_count(), 2);
    assert_eq!(sim.open_trades_count(), 0);
    let e = sim.pip_expectancy().unwrap();
    assert_eq!(e.num, 10_000);
    assert_eq!(e.den, 2);
    // 10000 millipips over 2 trades is exactly 5.0 pips.
    assert!(e.eq_int(5_000));
}

#[test]
fn balance_and_profit_track_closed_trades() {
    let mut sim = fresh_sim();
    sim.open_long_trade(&tick(0, 1, 100_000, 100_000));
    sim.close_all_open_trades(&tick(0, 30, 100_150, 100_160));
    let b = sim.balance();
    assert_eq!(b.num, DEPOSIT_MP + 15_000);
    assert_eq!(b.den, 1);
    let p = sim.profit();
    assert_eq!(p.num, 15_000);
    assert_eq!(p.den, 1);
}

#[test]
fn quote_adjustment_divides_by_one_hundred() {
    let mut sim = Simulation::new(Vec::new(), true, true, 7);
    sim.open_long_trade(&tick(0, 1, 100_000, 100_000));
    sim.close_all_open_trades(&tick(0, 30, 100_150, 100_160));
    let b = sim.balance();
    assert_eq!(b.num, DEPOSIT_MP + 15_000);
    assert_eq!(b.den, 100);
}

#[test]
fn double_close_is_refused() {
    let t = tick(0, 1, 100_000, 100_100);
    let mut trade = Trade::new_long_trade(&t, 1);
    assert!(trade.is_open());
    assert!(trade.close(&tick(0, 30, 100_200, 100_300)).is_ok());
    assert!(trade.is_closed());
    let before = trade.close_bid;
    assert!(matches!(trade.close(&tick(1, 0, 1, 2)), Err(TradeError::DoubleClose)));
    assert_eq!(trade.close_bid, before);
}

#[test]
fn trade_fill_prices_follow_direction() {
    let t = tick(0, 1, 100_000, 100_120);
    let long = Trade::new_long_trade(&t, 1);
    assert_eq!(long.open_price, 100_120);
    let short = Trade::new_short_trade(&t, 2);
    assert_eq!(short.open_price, 100_000);
    let mut long = long;
    long.close(&tick(0, 30, 100_400, 100_500)).unwrap();
    assert_eq!(long.close_price, 100_400);
    // +280 units of movement is 28000 millipips.
    assert_eq!(long.profit(), 28_000);
    let mut short = short;
    short.close(&tick(0, 40, 100_400, 100_500)).unwrap();
    assert_eq!(short.close_price, 100_500);
    assert_eq!(short.profit(), -50_000);
}

#[test]
fn open_profit_uses_latest_recorded_tick() {
    let t = tick(0, 1, 100_000, 100_000);
    let mut trade = Trade::new_long_trade(&t, 1);
    trade.record_tick(tick(0, 10, 100_090, 100_100));
    assert_eq!(trade.profit(), 9_000);
}

#[test]
fn migration_sweeps_only_closed_trades() {
    let mut sim = fresh_sim();
    sim.open_long_trade(&tick(0, 1, 100_000, 100_000));
    sim.open_short_trade(&tick(0, 2, 100_000, 100_000));
    assert_eq!(sim.open_trades_count(), 2);
    sim.migrate_closed_trades();
    // Nothing closed yet: the sweep moves nothing.
    assert_eq!(sim.open_trades_count(), 2);
    assert_eq!(sim.closed_trades_count(), 0);
    sim.close_all_open_trades(&tick(1, 0, 100_000, 100_000));
    assert_eq!(sim.open_trades_count(), 0);
    assert_eq!(sim.closed_trades_count(), 2);
    assert!(!sim.has_open_trades());
    assert_eq!(sim.closed_long_trade_count(), 1);
    assert_eq!(sim.closed_short_trade_count(), 1);
}

#[test]
fn drawdown_worsens_only_and_breaches_below_limit() {
    let mut sim = fresh_sim();
    // No trades: equity equals the deposit, drawdown stays zero.
    sim.update_drawdown();
    assert_eq!(sim.get_highest_drawdown().diff, 0);
    assert!(!sim.has_exceeded_max_drawdown());

    // A big open loss drags equity down 15% of the deposit: that is a
    // drawdown of -15%, below the -10% limit.
    sim.open_long_trade(&tick(0, 1, 500_000, 500_000));
    // Latest tick 15000 units below the fill: -1_500_000 millipips.
    sim.record_tick_onto_trades(&tick(0, 10, 485_000, 485_000));
    sim.update_drawdown();
    let dd = sim.get_highest_drawdown();
    // diff/high = -1_500_000 / 10_000_000 => -15%.
    assert_eq!(dd.diff, -1_500_000);
    assert_eq!(dd.high, DEPOSIT_MP);
    assert!(sim.has_exceeded_max_drawdown());

    // Equity recovering does not un-breach: the worst drawdown is kept.
    sim.record_tick_onto_trades(&tick(0, 20, 500_000, 500_000));
    sim.update_drawdown();
    assert_eq!(sim.get_highest_drawdown().diff, -1_500_000);
    assert!(sim.has_exceeded_max_drawdown());
}

#[test]
fn trade_log_rows_have_the_documented_shape() {
    let mut sim = fresh_sim();
    sim.open_long_trade(&tick(0, 1, 100_000, 100_000));
    sim.close_all_open_trades(&tick(0, 30, 100_150, 100_160));
    let mut out: Vec<u8> = Vec::new();
    sim.log_trades(&mut out);
    let text = String::from_utf8(out).unwrap();
    assert_eq!(
        text,
        "1,1,true,true,2014-01-02 05:00:01,2014-01-02 05:00:30,\
         1.00000,1.00150,0.00000,0.00010,15.0\n"
    );
    let mut ticks_out: Vec<u8> = Vec::new();
    sim.log_ticks(&mut ticks_out);
    let ticks_text = String::from_utf8(ticks_out).unwrap();
    assert_eq!(
        ticks_text,
        "1,1,1.00000,1.00000,2014-01-02 05:00:01\n"
    );
}
