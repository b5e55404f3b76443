use backtester::chart::ChartType;
use backtester::errors::ConfigError;
use backtester::parser_utils::{empty_or_comment, validate_name};
use backtester::parsers::{parse_charts_from_string, parse_variables_from_string};
use backtester::tick::{tm_from_string, tm_to_iso, Tick};
use backtester::util::{
    config_time_to_days, csv_is_jpy_base, day_of_week, split_csv_string, string_to_float,
    string_to_int,
};

#[test]
fn splits_preserve_pieces() {
    let parts = split_csv_string(b"a,bb,,c", b',');
    let views: Vec<&[u8]> = parts.iter().map(|p| p.as_slice()).collect();
    assert_eq!(views, vec![b"a" as &[u8], b"bb", b"", b"c"]);
    assert_eq!(split_csv_string(b"", b',').len(), 1);
    assert_eq!(split_csv_string(b"xy", b',').len(), 1);
}

#[test]
fn numbers_parse_exactly() {
    assert_eq!(string_to_int(b"42").unwrap(), 42);
    assert_eq!(string_to_int(b"-17").unwrap(), -17);
    assert!(string_to_int(b"").is_err());
    assert!(string_to_int(b"4x2").is_err());
    // The integer grammar is 32-bit, as ever: the boundaries parse and
    // anything beyond them is refused.
    assert_eq!(string_to_int(b"2147483647").unwrap(), 2147483647);
    assert_eq!(string_to_int(b"-2147483648").unwrap(), -2147483648);
    assert!(string_to_int(b"2147483648").is_err());
    assert!(string_to_int(b"-2147483649").is_err());
    assert!(string_to_int(b"3000000000").is_err());
    assert!(string_to_int(b"99999999999999999999").is_err());
    // Fixed-point values in 10^-5 units.
    assert_eq!(string_to_float(b"1.5").unwrap(), 150_000);
    assert_eq!(string_to_float(b"0.0").unwrap(), 0);
    assert_eq!(string_to_float(b"-2.25").unwrap(), -225_000);
    assert_eq!(string_to_float(b"3").unwrap(), 300_000);
    assert_eq!(string_to_float(b"0.00001").unwrap(), 1);
    assert!(string_to_float(b"0.000001").is_err());
    assert!(string_to_float(b"one").is_err());
}

#[test]
fn names_and_comments() {
    assert!(validate_name(b"sma_12-fast"));
    assert!(!validate_name(b""));
    assert!(!validate_name(b"bad name"));
    assert!(!validate_name(b"semi;colon"));
    assert!(empty_or_comment(b""));
    assert!(empty_or_comment(b"// note"));
    assert!(!empty_or_comment(b"/"));
    assert!(!empty_or_comment(b"candlestick,M1,5|sma,3"));
}

#[test]
fn chart_specification_round_trip() {
    let charts = parse_charts_from_string(b"candlestick,M1,5|sma,3\n").unwrap();
    assert_eq!(charts.len(), 1);
    let c = &charts[0];
    assert_eq!(c.name, b"candlestick_M1".to_vec());
    assert_eq!(c.max_candles, 6);
    assert_eq!(c.seconds_per_period, 60);
    assert_eq!(c.chart_type, ChartType::Candlestick);
    assert_eq!(c.indicators.len(), 1);
    assert_eq!(c.indicators[0].name, b"candlestick_M1_sma_3".to_vec());
    assert_eq!(c.indicators[0].lookback, 3);
}

#[test]
fn chart_specification_skips_blank_and_comment_lines() {
    let text = b"// two charts\n\ncandlestick,M5,4|sma,2\ncandlestick,H1,10|sma,3:sma,5\n";
    let charts = parse_charts_from_string(text).unwrap();
    assert_eq!(charts.len(), 2);
    assert_eq!(charts[0].seconds_per_period, 300);
    assert_eq!(charts[1].seconds_per_period, 3600);
    assert_eq!(charts[1].indicators.len(), 2);
}

#[test]
fn chart_specification_errors() {
    // No indicator section.
    assert!(matches!(parse_charts_from_string(b"candlestick,M1,5"),
        Err(ConfigError::MissingField)));
    // Unknown chart type.
    assert!(matches!(parse_charts_from_string(b"renko,M1,5|sma,3"),
        Err(ConfigError::UnknownChartType)));
    // Unknown period.
    assert!(matches!(parse_charts_from_string(b"candlestick,M7,5|sma,3"),
        Err(ConfigError::UnknownPeriod)));
    // Zero candles.
    assert!(matches!(parse_charts_from_string(b"candlestick,M1,0|sma,3"),
        Err(ConfigError::BadCandleCount)));
    // Lookback above the candle count.
    assert!(matches!(parse_charts_from_string(b"candlestick,M1,5|sma,6"),
        Err(ConfigError::BadLookback)));
    // Lookback of zero.
    assert!(matches!(parse_charts_from_string(b"candlestick,M1,5|sma,0"),
        Err(ConfigError::BadLookback)));
    // Unknown indicator.
    assert!(matches!(parse_charts_from_string(b"candlestick,M1,5|ema,3"),
        Err(ConfigError::UnknownIndicatorType)));
    // Malformed count.
    assert!(matches!(parse_charts_from_string(b"candlestick,M1,x|sma,3"),
        Err(ConfigError::BadNumber)));
}

#[test]
fn variable_specification_round_trip() {
    let text = b"use_stop,bool\nthreshold,float,0.0,1.0\nlookback,int,2,9\n";
    let vars = parse_variables_from_string(text).unwrap();
    assert_eq!(vars.get_bool(b"use_stop").unwrap(), false);
    assert_eq!(vars.get_float(b"threshold").unwrap(), 0);
    assert_eq!(vars.get_integer(b"lookback").unwrap(), 0);
    let f = &vars.floats[0].1;
    assert_eq!((f.lower, f.upper), (0, 100_000));
    let n = &vars.ints[0].1;
    assert_eq!((n.lower, n.upper), (2, 9));
}

#[test]
fn variable_specification_errors() {
    assert!(matches!(parse_variables_from_string(b"x,price,1,2"),
        Err(ConfigError::UnknownVariableType)));
    assert!(matches!(parse_variables_from_string(b"bad name,bool"),
        Err(ConfigError::BadName)));
    assert!(matches!(parse_variables_from_string(b"x,float,2.0,1.0"),
        Err(ConfigError::BadBounds)));
    assert!(matches!(parse_variables_from_string(b"x,int,5,5"),
        Err(ConfigError::BadBounds)));
    assert!(matches!(parse_variables_from_string(b"x,float,1.0"),
        Err(ConfigError::MissingField)));
    assert!(matches!(parse_variables_from_string(b"x,bool\nx,bool"),
        Err(ConfigError::DuplicateName)));
    // Integer bounds must stay within 32-bit range, as ever.
    assert!(matches!(parse_variables_from_string(b"x,int,0,3000000000"),
        Err(ConfigError::BadNumber)));
}

#[test]
fn tick_lines_parse_and_render() {
    let t = Tick::new_from_line(b"01/02/2014 04:59:15,1.36742,1.36801\n").unwrap();
    assert_eq!(t.time.year, 2014);
    assert_eq!(t.time.month, 1);
    assert_eq!(t.time.day, 2);
    assert_eq!(t.time.hour, 4);
    assert_eq!(t.time.minute, 59);
    assert_eq!(t.time.second, 15);
    assert_eq!(t.bid, 136_742);
    assert_eq!(t.ask, 136_801);
    assert_eq!(String::from_utf8(t.to_csv()).unwrap(),
        "1.36742,1.36801,2014-01-02 04:59:15\n");
    // Three-decimal quotes parse on the coarser grid.
    let j = Tick::new_from_line(b"01/02/2014 04:59:15,101.123,101.145").unwrap();
    assert_eq!(j.bid, 10_112_300);
    assert_eq!(j.ask, 10_114_500);
    // Malformed lines are refused.
    assert!(Tick::new_from_line(b"01/02/2014,1.0,2.0").is_err());
    assert!(Tick::new_from_line(b"13/02/2014 00:00:00,1.00000,1.00001").is_err());
    assert!(Tick::new_from_line(b"02/30/2014 00:00:00,1.00000,1.00001").is_err());
    assert!(Tick::new_from_line(b"01/02/2014 24:00:00,1.00000,1.00001").is_err());
    assert!(Tick::new_from_line(b"01/02/2014 00:00:00,1.0,2.0").is_err());
}

#[test]
fn timestamps_agree_with_the_calendar() {
    let t = tm_from_string(b"01/01/1970 00:00:00").unwrap();
    assert_eq!(t.timestamp(), 0);
    let t2 = tm_from_string(b"01/02/2014 04:59:15").unwrap();
    assert_eq!(t2.timestamp(), 1388638755);
    assert_eq!(String::from_utf8(tm_to_iso(&t2)).unwrap(), "2014-01-02 04:59:15");
    assert!(tm_from_string(b"02/29/2015 00:00:00").is_err());
    assert!(tm_from_string(b"02/29/2016 00:00:00").is_ok());
}

#[test]
fn day_of_week_matches_the_congruence_table() {
    // 2014-01-05 was a Sunday; 2014-01-02 a Thursday.
    assert_eq!(day_of_week(2014, 1, 5), 0);
    assert_eq!(day_of_week(2014, 1, 2), 4);
    assert_eq!(day_of_week(2000, 2, 29), 2);
}

#[test]
fn window_lengths_parse_as_weeks() {
    assert_eq!(config_time_to_days(b"1 week").unwrap(), 7);
    assert_eq!(config_time_to_days(b"2 weeks").unwrap(), 14);
    assert!(config_time_to_days(b"2 months").is_err());
    assert!(config_time_to_days(b"0 weeks").is_err());
    assert!(config_time_to_days(b"weeks").is_err());
}

#[test]
fn quote_precision_detection() {
    assert_eq!(csv_is_jpy_base(b"01/02/2014 04:59:15,101.123,101.145\n").unwrap(), true);
    assert_eq!(csv_is_jpy_base(b"01/02/2014 04:59:15,1.36742,1.36801\n").unwrap(), false);
    assert!(matches!(csv_is_jpy_base(b"01/02/2014 04:59:15,1.3674,1.3680\n"),
        Err(ConfigError::BadDecimalPlaces)));
}
