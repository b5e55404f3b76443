use backtester::chart::{period_from_string, seconds_in_period, Chart, ChartPeriod};
use backtester::indicators::Indicator;
use backtester::tick::{Tick, TickTime};

fn tt(year: i32, month: u8, day: u8, hour: u8, minute: u8, second: u8) -> TickTime {
    TickTime { year, month, day, hour, minute, second }
}

fn tick_at(second: u8, bid: u64, ask: u64) -> Tick {
    Tick::new(tt(2014, 1, 2, 4, 59, second), bid, ask)
}

fn m1_chart(count: usize) -> Chart {
    Chart::new_candlestick_chart(b"candlestick_M1".to_vec(), b"M1", count).unwrap()
}

#[test]
fn bucket_aggregates_high_low_and_volume() {
    // All ticks fall in one M1 bucket: the bar must hold the max/min of
    // every bid and ask, and the volume must count every tick.
    let mut chart = m1_chart(5);
    chart.process_tick(&tick_at(1, 100_000, 100_500));
    chart.process_tick(&tick_at(5, 99_000, 100_200));
    chart.process_tick(&tick_at(10, 101_500, 102_000));
    chart.process_tick(&tick_at(20, 100_700, 100_900));
    assert_eq!(chart.candles.len(), 1);
    let bar = chart.candles[0];
    assert_eq!(bar.volume, 4);
    assert_eq!(bar.high_bid, 101_500);
    assert_eq!(bar.low_bid, 99_000);
    assert_eq!(bar.high_ask, 102_000);
    assert_eq!(bar.low_ask, 100_200);
    assert_eq!(bar.open_bid, 100_000);
    assert_eq!(bar.open_ask, 100_500);
    // The in-progress bar has no close yet.
    assert_eq!(bar.close_bid, 0);
    assert_eq!(bar.close_ask, 0);
}

#[test]
fn closing_a_bar_uses_the_previous_tick() {
    // The close of a finished bar is the last tick strictly before the
    // new bar opened, not the tick that triggered the roll.
    let mut chart = m1_chart(5);
    chart.process_tick(&tick_at(1, 100_000, 100_100));
    chart.process_tick(&tick_at(30, 100_700, 100_800));
    // Next minute: triggers the close of the first bar.
    let trigger = Tick::new(tt(2014, 1, 2, 5, 0, 0), 200_000, 200_100);
    chart.process_tick(&trigger);
    assert_eq!(chart.candles.len(), 2);
    let closed = chart.candles[1];
    assert_eq!(closed.close_bid, 100_700);
    assert_eq!(closed.close_ask, 100_800);
    let fresh = chart.candles[0];
    assert_eq!(fresh.open_bid, 200_000);
    assert_eq!(fresh.volume, 1);
}

#[test]
fn has_full_data_is_monotonic_at_capacity() {
    // A chart configured for 2 candles holds 3; once full it stays full
    // under continuous input, evicting the oldest bar.
    let mut chart = m1_chart(2);
    assert!(!chart.has_full_data());
    for minute in 0..3u8 {
        let t = Tick::new(tt(2014, 1, 2, 5, minute, 1), 100_000, 100_100);
        chart.process_tick(&t);
    }
    assert!(chart.has_full_data());
    assert_eq!(chart.candles.len(), 3);
    for minute in 3..10u8 {
        let t = Tick::new(tt(2014, 1, 2, 5, minute, 1), 100_000, 100_100);
        chart.process_tick(&t);
        assert!(chart.has_full_data());
        assert_eq!(chart.candles.len(), 3);
    }
    assert_eq!(chart.get_ticks_processed(), 10);
}

#[test]
fn sma_reads_completed_candles_only() {
    // Lookback 2 on a chart of 2: sums close_bid of indexes 1..=2 and
    // divides by 2, skipping the in-progress bar at index 0.
    let mut chart = m1_chart(2);
    chart.attach_indicator(Indicator::new_sma(b"candlestick_M1_sma_2".to_vec(), 2));
    let prices = [100_000u64, 100_200, 100_400, 100_600];
    for (minute, p) in prices.iter().enumerate() {
        let t = Tick::new(tt(2014, 1, 2, 5, minute as u8, 1), *p, *p + 10);
        chart.process_tick(&t);
    }
    // Bars newest first: index 1 closed at 100_400 (previous tick of the
    // roll to minute 3), index 2 closed at 100_200.
    let v = chart.indicators[0].value;
    assert_eq!(v.den, 2);
    assert_eq!(v.num, 100_400 + 100_200);
}

#[test]
fn period_mnemonics_parse_exactly() {
    assert!(matches!(period_from_string(b"M1"), Ok(ChartPeriod::M1)));
    assert!(matches!(period_from_string(b"M5"), Ok(ChartPeriod::M5)));
    assert!(matches!(period_from_string(b"M15"), Ok(ChartPeriod::M15)));
    assert!(matches!(period_from_string(b"M30"), Ok(ChartPeriod::M30)));
    assert!(matches!(period_from_string(b"H1"), Ok(ChartPeriod::H1)));
    assert!(matches!(period_from_string(b"H4"), Ok(ChartPeriod::H4)));
    assert!(period_from_string(b"M2").is_err());
    assert!(period_from_string(b"").is_err());
}

#[test]
fn seconds_per_period_table() {
    assert_eq!(seconds_in_period(ChartPeriod::M1), 60);
    assert_eq!(seconds_in_period(ChartPeriod::M5), 300);
    assert_eq!(seconds_in_period(ChartPeriod::M15), 900);
    assert_eq!(seconds_in_period(ChartPeriod::M30), 1800);
    assert_eq!(seconds_in_period(ChartPeriod::H1), 3600);
    assert_eq!(seconds_in_period(ChartPeriod::H4), 14400);
}

#[test]
fn chart_clone_is_independent() {
    let mut chart = m1_chart(2);
    chart.process_tick(&tick_at(1, 100_000, 100_100));
    let copy = chart.clone();
    chart.process_tick(&tick_at(2, 105_000, 105_100));
    assert_eq!(copy.candles[0].high_bid, 100_000);
    assert_eq!(chart.candles[0].high_bid, 105_000);
    assert_eq!(copy.get_ticks_processed(), 1);
    assert_eq!(chart.get_ticks_processed(), 2);
}
