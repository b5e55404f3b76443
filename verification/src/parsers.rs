use vstd::prelude::*;

use crate::chart::{
    charts_views, spec_period_from, spec_seconds_in_period, Candle, Chart, ChartModel, ChartType,
};
use crate::errors::ConfigError;
use crate::indicators::{Indicator, IndicatorModel, IndicatorType};
use crate::parser_utils;
use crate::parser_utils::{spec_empty_or_comment, spec_valid_name};
use crate::range_bound_variable::{
    lookup_bool, lookup_float, lookup_int, RangeBoundBool, RangeBoundFloat, RangeBoundInteger,
    RangeBoundVariables, RangeBoundVariablesModel,
};
use crate::ratio::Ratio;
use crate::tick::spec_empty_tick;
use crate::util;
use crate::util::{
    dec_digits, dec_value, seq_views, signed_dec_value, spec_scaled_value, spec_split,
    valid_i32_str, valid_scaled_str, valid_u64_str,
};

verus! {

// ----- keywords -------------------------------------------------------------

pub open spec fn kw_candlestick() -> Seq<u8> {
    seq![99u8, 97u8, 110u8, 100u8, 108u8, 101u8, 115u8, 116u8, 105u8, 99u8, 107u8]
}

pub open spec fn kw_sma() -> Seq<u8> {
    seq![115u8, 109u8, 97u8]
}

pub open spec fn kw_bool() -> Seq<u8> {
    seq![98u8, 111u8, 111u8, 108u8]
}

pub open spec fn kw_float() -> Seq<u8> {
    seq![102u8, 108u8, 111u8, 97u8, 116u8]
}

pub open spec fn kw_int() -> Seq<u8> {
    seq![105u8, 110u8, 116u8]
}

fn kw_candlestick_vec() -> (r: Vec<u8>)
    ensures
        r@ == kw_candlestick(),
{
    let mut v: Vec<u8> = Vec::new();
    v.push(99);
    v.push(97);
    v.push(110);
    v.push(100);
    v.push(108);
    v.push(101);
    v.push(115);
    v.push(116);
    v.push(105);
    v.push(99);
    v.push(107);
    proof {
        assert(v@ =~= kw_candlestick());
    }
    v
}

fn kw_sma_vec() -> (r: Vec<u8>)
    ensures
        r@ == kw_sma(),
{
    let mut v: Vec<u8> = Vec::new();
    v.push(115);
    v.push(109);
    v.push(97);
    proof {
        assert(v@ =~= kw_sma());
    }
    v
}

fn kw_bool_vec() -> (r: Vec<u8>)
    ensures
        r@ == kw_bool(),
{
    let mut v: Vec<u8> = Vec::new();
    v.push(98);
    v.push(111);
    v.push(111);
    v.push(108);
    proof {
        assert(v@ =~= kw_bool());
    }
    v
}

fn kw_float_vec() -> (r: Vec<u8>)
    ensures
        r@ == kw_float(),
{
    let mut v: Vec<u8> = Vec::new();
    v.push(102);
    v.push(108);
    v.push(111);
    v.push(97);
    v.push(116);
    proof {
        assert(v@ =~= kw_float());
    }
    v
}

fn kw_int_vec() -> (r: Vec<u8>)
    ensures
        r@ == kw_int(),
{
    let mut v: Vec<u8> = Vec::new();
    v.push(105);
    v.push(110);
    v.push(116);
    proof {
        assert(v@ =~= kw_int());
    }
    v
}

// ===== CHARTS ===============================================================

/// The name a chart is published under: `<type>_<period>`.
pub open spec fn spec_chart_name(ct: Seq<u8>, period: Seq<u8>) -> Seq<u8> {
    ct + seq![95u8] + period
}

/// The name an indicator is published under:
/// `<chart name>_<indicator type>_<lookback>`.
pub open spec fn spec_indicator_name(chart_name: Seq<u8>, ind_type: Seq<u8>, n: nat) -> Seq<u8> {
    chart_name + seq![95u8] + ind_type + seq![95u8] + dec_digits(n)
}

/// One indicator definition, `type,lookback`: the lookback must be at
/// least 1 and at most the chart's candle count, the combined name must
/// be valid, and the type must be one the engine knows.
pub open spec fn spec_parse_indicator(
    chart_name: Seq<u8>,
    s: Seq<u8>,
    num_chart_candles: int,
) -> Option<IndicatorModel> {
    let parts = spec_split(s, 44);
    if parts.len() != 2 {
        None
    } else if !valid_u64_str(parts[1]) {
        None
    } else if !(1 <= dec_value(parts[1]) <= num_chart_candles) {
        None
    } else if !spec_valid_name(spec_indicator_name(chart_name, parts[0], dec_value(parts[1]))) {
        None
    } else if parts[0] == kw_sma() {
        Some(IndicatorModel {
            name: spec_indicator_name(chart_name, parts[0], dec_value(parts[1])),
            lookback: dec_value(parts[1]) as int,
            indicator_type: IndicatorType::SMA,
            value: Ratio { num: 0, den: 0 },
        })
    } else {
        None
    }
}

/// Parses one indicator definition against its owning chart.
pub fn parse_indicator(chart_name: &[u8], s: &[u8], num_chart_candles: usize) -> (r: Result<
    Indicator,
    ConfigError,
>)
    requires
        1 <= num_chart_candles <= 0x7FFF_FFFE,
    ensures
        r is Ok <==> spec_parse_indicator(chart_name@, s@, num_chart_candles as int) is Some,
        r is Ok ==> Some(r->Ok_0@) == spec_parse_indicator(chart_name@, s@,
            num_chart_candles as int),
        r is Ok ==> r->Ok_0@.wf() && r->Ok_0@.lookback <= num_chart_candles,
{
    let parts = util::split_csv_string(s, 44);
    proof {
        assert(seq_views(parts@)[0] == parts@[0]@);
        if parts@.len() >= 2 {
            assert(seq_views(parts@)[1] == parts@[1]@);
        }
    }
    if parts.len() != 2 {
        return Err(ConfigError::MissingField);
    }
    let n = match util::parse_u64(parts[1].as_slice()) {
        Ok(v) => v,
        Err(e) => {
            return Err(e);
        },
    };
    if n < 1 || n > num_chart_candles as u64 {
        return Err(ConfigError::BadLookback);
    }
    let mut name: Vec<u8> = Vec::new();
    util::push_bytes(&mut name, chart_name);
    name.push(95);
    util::push_bytes(&mut name, parts[0].as_slice());
    name.push(95);
    util::push_u64_dec(&mut name, n);
    proof {
        assert(name@ =~= spec_indicator_name(chart_name@, parts@[0]@, dec_value(parts@[1]@)));
    }
    if !parser_utils::validate_name(name.as_slice()) {
        return Err(ConfigError::BadName);
    }
    let sma = kw_sma_vec();
    if util::bytes_eq(parts[0].as_slice(), sma.as_slice()) {
        Ok(Indicator::new_sma(name, n as usize))
    } else {
        Err(ConfigError::UnknownIndicatorType)
    }
}

/// One chart line, `type,period,count|indicator:indicator:...`; sections
/// after the first pipe-separated indicator section are ignored.
pub open spec fn spec_parse_chart_line(line: Seq<u8>) -> Option<ChartModel> {
    let sections = spec_split(line, 124);
    if sections.len() < 2 {
        None
    } else {
        let cp = spec_split(sections[0], 44);
        if cp.len() != 3 {
            None
        } else if !valid_u64_str(cp[2]) {
            None
        } else if !(1 <= dec_value(cp[2]) <= 0x7FFF_FFFE) {
            None
        } else if !spec_valid_name(spec_chart_name(cp[0], cp[1])) {
            None
        } else if cp[0] != kw_candlestick() {
            None
        } else {
            match spec_period_from(cp[1]) {
                None => None,
                Some(p) => match spec_parse_indicators(spec_chart_name(cp[0], cp[1]),
                    spec_split(sections[1], 58), dec_value(cp[2]) as int) {
                    None => None,
                    Some(inds) => Some(ChartModel {
                        candles: Seq::<Candle>::empty(),
                        last_tick: spec_empty_tick(),
                        max_candles: dec_value(cp[2]) + 1int,
                        name: spec_chart_name(cp[0], cp[1]),
                        seconds_per_period: spec_seconds_in_period(p),
                        indicators: inds,
                        chart_type: ChartType::Candlestick,
                        active: false,
                        ticks_processed: 0,
                    }),
                },
            }
        }
    }
}

/// All indicator definitions of one chart line, in order.
pub open spec fn spec_parse_indicators(
    chart_name: Seq<u8>,
    parts: Seq<Seq<u8>>,
    n: int,
) -> Option<Seq<IndicatorModel>>
    decreases parts.len(),
{
    if parts.len() == 0 {
        Some(Seq::empty())
    } else {
        match spec_parse_indicators(chart_name, parts.drop_last(), n) {
            None => None,
            Some(ds) => match spec_parse_indicator(chart_name, parts.last(), n) {
                None => None,
                Some(d) => Some(ds.push(d)),
            },
        }
    }
}

proof fn lemma_indicators_none_sticks(chart_name: Seq<u8>, parts: Seq<Seq<u8>>, n: int, m: int)
    requires
        0 <= m <= parts.len(),
        spec_parse_indicators(chart_name, parts.take(m), n) is None,
    ensures
        spec_parse_indicators(chart_name, parts, n) is None,
    decreases parts.len() - m,
{
    if m < parts.len() {
        assert(parts.take(m + 1).drop_last() =~= parts.take(m));
        lemma_indicators_none_sticks(chart_name, parts, n, m + 1);
    } else {
        assert(parts.take(m) =~= parts);
    }
}

/// Parses one chart line into a chart with its indicators attached.
#[verifier::rlimit(100)]
pub fn parse_chart_line(line: &[u8]) -> (r: Result<Chart, ConfigError>)
    ensures
        r is Ok <==> spec_parse_chart_line(line@) is Some,
        r is Ok ==> Some(r->Ok_0@) == spec_parse_chart_line(line@),
        r is Ok ==> r->Ok_0@.wf() && r->Ok_0@.ticks_processed == 0,
{
    let sections = util::split_csv_string(line, 124);
    proof {
        assert(seq_views(sections@)[0] == sections@[0]@);
        if sections@.len() >= 2 {
            assert(seq_views(sections@)[1] == sections@[1]@);
        }
    }
    if sections.len() < 2 {
        return Err(ConfigError::MissingField);
    }
    let cp = util::split_csv_string(sections[0].as_slice(), 44);
    proof {
        assert(seq_views(cp@)[0] == cp@[0]@);
        if cp@.len() >= 3 {
            assert(seq_views(cp@)[1] == cp@[1]@);
            assert(seq_views(cp@)[2] == cp@[2]@);
        }
    }
    if cp.len() != 3 {
        return Err(ConfigError::MissingField);
    }
    let n = match util::parse_u64(cp[2].as_slice()) {
        Ok(v) => v,
        Err(e) => {
            return Err(e);
        },
    };
    if n < 1 || n > 0x7FFF_FFFE {
        return Err(ConfigError::BadCandleCount);
    }
    let mut chart_name: Vec<u8> = Vec::new();
    util::push_bytes(&mut chart_name, cp[0].as_slice());
    chart_name.push(95);
    util::push_bytes(&mut chart_name, cp[1].as_slice());
    proof {
        assert(chart_name@ =~= spec_chart_name(cp@[0]@, cp@[1]@));
    }
    if !parser_utils::validate_name(chart_name.as_slice()) {
        return Err(ConfigError::BadName);
    }
    let cndl = kw_candlestick_vec();
    if !util::bytes_eq(cp[0].as_slice(), cndl.as_slice()) {
        return Err(ConfigError::UnknownChartType);
    }
    let name_copy = util::slice_suffix(chart_name.as_slice(), 0);
    proof {
        assert(name_copy@ =~= chart_name@);
    }
    let mut chart = match Chart::new_candlestick_chart(name_copy, cp[1].as_slice(),
        n as usize) {
        Ok(c) => c,
        Err(e) => {
            return Err(e);
        },
    };
    let iparts = util::split_csv_string(sections[1].as_slice(), 58);
    let ghost ipv = spec_split(sections@[1]@, 58);
    let ghost cname = chart_name@;
    let ghost ncc = n as int;
    let mut j: usize = 0;
    while j < iparts.len()
        invariant
            j <= iparts@.len(),
            seq_views(iparts@) == ipv,
            chart_name@ == cname,
            1 <= ncc <= 0x7FFF_FFFE,
            n as int == ncc,
            cp@.len() == 3,
            chart@.wf(),
            chart@.candles == Seq::<Candle>::empty(),
            chart@.last_tick == spec_empty_tick(),
            chart@.max_candles == ncc + 1,
            chart@.name == cname,
            chart@.seconds_per_period == spec_seconds_in_period(
                spec_period_from(cp@[1]@)->Some_0),
            spec_period_from(cp@[1]@) is Some,
            chart@.chart_type == ChartType::Candlestick,
            chart@.active == false,
            chart@.ticks_processed == 0,
            Some(chart@.indicators) == spec_parse_indicators(cname, ipv.take(j as int), ncc),
            ({
                let full = spec_parse_indicators(cname, ipv, ncc);
                &&& (full is Some <==> spec_parse_chart_line(line@) is Some)
                &&& (full is Some ==> spec_parse_chart_line(line@)->Some_0 == (ChartModel {
                    candles: Seq::<Candle>::empty(),
                    last_tick: spec_empty_tick(),
                    max_candles: ncc + 1,
                    name: cname,
                    seconds_per_period: chart@.seconds_per_period,
                    indicators: full->Some_0,
                    chart_type: ChartType::Candlestick,
                    active: false,
                    ticks_processed: 0,
                }))
            }),
        decreases iparts@.len() - j,
    {
        proof {
            assert(ipv.take(j + 1).drop_last() =~= ipv.take(j as int));
            assert(ipv.take(j + 1).last() == ipv[j as int]);
            assert(seq_views(iparts@)[j as int] == iparts@[j as int]@);
        }
        let ind = match parse_indicator(chart_name.as_slice(), iparts[j].as_slice(), n as usize) {
            Ok(d) => d,
            Err(e) => {
                proof {
                    assert(spec_parse_indicator(cname, ipv[j as int], ncc) is None);
                    assert(spec_parse_indicators(cname, ipv.take(j + 1), ncc) is None);
                    lemma_indicators_none_sticks(cname, ipv, ncc, j + 1);
                }
                return Err(e);
            },
        };
        chart.attach_indicator(ind);
        j += 1;
    }
    proof {
        assert(ipv.take(ipv.len() as int) =~= ipv);
        assert(Some(chart@) =~= spec_parse_chart_line(line@));
    }
    Ok(chart)
}

/// A whole chart specification: newline-separated chart lines, blank
/// lines and `//` comment lines skipped.
pub open spec fn spec_parse_chart_lines(lines: Seq<Seq<u8>>) -> Option<Seq<ChartModel>>
    decreases lines.len(),
{
    if lines.len() == 0 {
        Some(Seq::empty())
    } else {
        match spec_parse_chart_lines(lines.drop_last()) {
            None => None,
            Some(cs) => if spec_empty_or_comment(lines.last()) {
                Some(cs)
            } else {
                match spec_parse_chart_line(lines.last()) {
                    None => None,
                    Some(c) => Some(cs.push(c)),
                }
            },
        }
    }
}

proof fn lemma_chart_lines_none_sticks(lines: Seq<Seq<u8>>, m: int)
    requires
        0 <= m <= lines.len(),
        spec_parse_chart_lines(lines.take(m)) is None,
    ensures
        spec_parse_chart_lines(lines) is None,
    decreases lines.len() - m,
{
    if m < lines.len() {
        assert(lines.take(m + 1).drop_last() =~= lines.take(m));
        lemma_chart_lines_none_sticks(lines, m + 1);
    } else {
        assert(lines.take(m) =~= lines);
    }
}

/// The mathematical charts a chart specification denotes.
pub open spec fn spec_parse_charts(s: Seq<u8>) -> Option<Seq<ChartModel>> {
    spec_parse_chart_lines(spec_split(s, 10))
}

/// Parses a whole chart specification string.
pub fn parse_charts_from_string(s: &[u8]) -> (r: Result<Vec<Chart>, ConfigError>)
    ensures
        r is Ok <==> spec_parse_charts(s@) is Some,
        r is Ok ==> Some(charts_views(r->Ok_0@)) == spec_parse_charts(s@),
        r is Ok ==> forall|i: int| 0 <= i < r->Ok_0@.len() ==> (#[trigger] r->Ok_0@[i])@.wf()
            && r->Ok_0@[i]@.ticks_processed == 0,
{
    let lines = util::split_csv_string(s, 10);
    let ghost lv = spec_split(s@, 10);
    let mut out: Vec<Chart> = Vec::new();
    let mut k: usize = 0;
    proof {
        assert(lv.take(0int) =~= Seq::<Seq<u8>>::empty());
        assert(charts_views(out@) =~= Seq::<ChartModel>::empty());
    }
    while k < lines.len()
        invariant
            k <= lines@.len(),
            seq_views(lines@) == lv,
            lv == spec_split(s@, 10),
            Some(charts_views(out@)) == spec_parse_chart_lines(lv.take(k as int)),
            forall|i: int| 0 <= i < out@.len() ==> (#[trigger] out@[i])@.wf()
                && out@[i]@.ticks_processed == 0,
        decreases lines@.len() - k,
    {
        proof {
            assert(lv.take(k + 1).drop_last() =~= lv.take(k as int));
            assert(lv.take(k + 1).last() == lv[k as int]);
            assert(seq_views(lines@)[k as int] == lines@[k as int]@);
        }
        if !parser_utils::empty_or_comment(lines[k].as_slice()) {
            let chart = match parse_chart_line(lines[k].as_slice()) {
                Ok(c) => c,
                Err(e) => {
                    proof {
                        assert(spec_parse_chart_line(lv[k as int]) is None);
                        assert(spec_parse_chart_lines(lv.take(k + 1)) is None);
                        lemma_chart_lines_none_sticks(lv, k + 1);
                    }
                    return Err(e);
                },
            };
            out.push(chart);
            proof {
                assert(charts_views(out@) =~= charts_views(out@.drop_last()).push(
                    out@.last()@));
            }
        }
        k += 1;
    }
    proof {
        assert(lv.take(lines@.len() as int) =~= lv);
    }
    Ok(out)
}

// ===== RANGE-BOUND VARIABLES ================================================

/// One variable definition, `name,type[,lower,upper]`, folded onto the
/// set built so far: `bool` takes no bounds, `float` takes fixed-point
/// bounds, `int` takes integer bounds in 32-bit range; the lower bound
/// must lie strictly below the upper; a duplicate name of the same kind
/// is refused.  Extra fields are ignored.
pub open spec fn spec_parse_var_line(
    m: RangeBoundVariablesModel,
    line: Seq<u8>,
) -> Option<RangeBoundVariablesModel> {
    let parts = spec_split(line, 44);
    if parts.len() < 2 {
        None
    } else if !spec_valid_name(parts[0]) {
        None
    } else if parts[1] == kw_bool() {
        if lookup_bool(m.bools, parts[0]) is Some {
            None
        } else {
            Some(RangeBoundVariablesModel {
                bools: m.bools.push((parts[0], RangeBoundBool { value: false })),
                ..m
            })
        }
    } else if parts[1] == kw_float() {
        if parts.len() < 4 {
            None
        } else if !valid_scaled_str(parts[2]) || !valid_scaled_str(parts[3]) {
            None
        } else if lookup_float(m.floats, parts[0]) is Some {
            None
        } else if !(spec_scaled_value(parts[2]) < spec_scaled_value(parts[3])) {
            None
        } else {
            Some(RangeBoundVariablesModel {
                floats: m.floats.push((parts[0], RangeBoundFloat {
                    lower: spec_scaled_value(parts[2]) as i64,
                    upper: spec_scaled_value(parts[3]) as i64,
                    value: 0,
                })),
                ..m
            })
        }
    } else if parts[1] == kw_int() {
        if parts.len() < 4 {
            None
        } else if !valid_i32_str(parts[2]) || !valid_i32_str(parts[3]) {
            None
        } else if lookup_int(m.ints, parts[0]) is Some {
            None
        } else if !(signed_dec_value(parts[2]) < signed_dec_value(parts[3])) {
            None
        } else {
            Some(RangeBoundVariablesModel {
                ints: m.ints.push((parts[0], RangeBoundInteger {
                    lower: signed_dec_value(parts[2]) as i64,
                    upper: signed_dec_value(parts[3]) as i64,
                    value: 0,
                })),
                ..m
            })
        }
    } else {
        None
    }
}

/// A whole variable specification, line by line, skips included.
pub open spec fn spec_parse_var_lines(
    m: RangeBoundVariablesModel,
    lines: Seq<Seq<u8>>,
) -> Option<RangeBoundVariablesModel>
    decreases lines.len(),
{
    if lines.len() == 0 {
        Some(m)
    } else {
        match spec_parse_var_lines(m, lines.drop_last()) {
            None => None,
            Some(m2) => if spec_empty_or_comment(lines.last()) {
                Some(m2)
            } else {
                spec_parse_var_line(m2, lines.last())
            },
        }
    }
}

proof fn lemma_var_lines_none_sticks(m: RangeBoundVariablesModel, lines: Seq<Seq<u8>>, k: int)
    requires
        0 <= k <= lines.len(),
        spec_parse_var_lines(m, lines.take(k)) is None,
    ensures
        spec_parse_var_lines(m, lines) is None,
    decreases lines.len() - k,
{
    if k < lines.len() {
        assert(lines.take(k + 1).drop_last() =~= lines.take(k));
        lemma_var_lines_none_sticks(m, lines, k + 1);
    } else {
        assert(lines.take(k) =~= lines);
    }
}

/// The variable set an empty specification denotes.
pub open spec fn spec_vars_empty() -> RangeBoundVariablesModel {
    RangeBoundVariablesModel {
        bools: Seq::empty(),
        floats: Seq::empty(),
        ints: Seq::empty(),
    }
}

/// The mathematical variable set a specification string denotes.
pub open spec fn spec_parse_variables(s: Seq<u8>) -> Option<RangeBoundVariablesModel> {
    spec_parse_var_lines(spec_vars_empty(), spec_split(s, 10))
}

/// Applies one variable definition line to the set built so far.
#[verifier::rlimit(100)]
fn apply_var_line(rbv: &mut RangeBoundVariables, line: &[u8]) -> (r: Result<(), ConfigError>)
    requires
        old(rbv).wf(),
    ensures
        final(rbv).wf(),
        r is Ok <==> spec_parse_var_line(old(rbv)@, line@) is Some,
        r is Ok ==> Some(final(rbv)@) == spec_parse_var_line(old(rbv)@, line@),
{
    let parts = util::split_csv_string(line, 44);
    proof {
        assert(seq_views(parts@)[0] == parts@[0]@);
        if parts@.len() >= 2 {
            assert(seq_views(parts@)[1] == parts@[1]@);
        }
        if parts@.len() >= 4 {
            assert(seq_views(parts@)[2] == parts@[2]@);
            assert(seq_views(parts@)[3] == parts@[3]@);
        }
    }
    if parts.len() < 2 {
        return Err(ConfigError::MissingField);
    }
    if !parser_utils::validate_name(parts[0].as_slice()) {
        return Err(ConfigError::BadName);
    }
    let kb = kw_bool_vec();
    let kf = kw_float_vec();
    let ki = kw_int_vec();
    if util::bytes_eq(parts[1].as_slice(), kb.as_slice()) {
        let name = util::slice_suffix(parts[0].as_slice(), 0);
        proof {
            assert(name@ =~= parts@[0]@);
        }
        match rbv.create_bool(name) {
            Ok(()) => {
                proof {
                    assert(Some(rbv@) =~= spec_parse_var_line(old(rbv)@, line@)) by {
                        crate::range_bound_variable::lemma_find_is_lookup_bool(old(rbv).bools@,
                            parts@[0]@);
                    }
                }
                Ok(())
            },
            Err(e) => {
                proof {
                    crate::range_bound_variable::lemma_find_is_lookup_bool(old(rbv).bools@,
                        parts@[0]@);
                }
                Err(e)
            },
        }
    } else if util::bytes_eq(parts[1].as_slice(), kf.as_slice()) {
        if parts.len() < 4 {
            return Err(ConfigError::MissingField);
        }
        let lower = match util::string_to_float(parts[2].as_slice()) {
            Ok(v) => v,
            Err(e) => {
                return Err(e);
            },
        };
        let upper = match util::string_to_float(parts[3].as_slice()) {
            Ok(v) => v,
            Err(e) => {
                return Err(e);
            },
        };
        let name = util::slice_suffix(parts[0].as_slice(), 0);
        proof {
            assert(name@ =~= parts@[0]@);
        }
        match rbv.create_float(name, lower, upper) {
            Ok(()) => {
                proof {
                    assert(Some(rbv@) =~= spec_parse_var_line(old(rbv)@, line@)) by {
                        crate::range_bound_variable::lemma_find_is_lookup_float(old(rbv).floats@,
                            parts@[0]@);
                    }
                }
                Ok(())
            },
            Err(e) => {
                proof {
                    crate::range_bound_variable::lemma_find_is_lookup_float(old(rbv).floats@,
                        parts@[0]@);
                }
                Err(e)
            },
        }
    } else if util::bytes_eq(parts[1].as_slice(), ki.as_slice()) {
        if parts.len() < 4 {
            return Err(ConfigError::MissingField);
        }
        let lower = match util::string_to_int(parts[2].as_slice()) {
            Ok(v) => v,
            Err(e) => {
                return Err(e);
            },
        };
        let upper = match util::string_to_int(parts[3].as_slice()) {
            Ok(v) => v,
            Err(e) => {
                return Err(e);
            },
        };
        let name = util::slice_suffix(parts[0].as_slice(), 0);
        proof {
            assert(name@ =~= parts@[0]@);
        }
        match rbv.create_int(name, lower as i64, upper as i64) {
            Ok(()) => {
                proof {
                    assert(Some(rbv@) =~= spec_parse_var_line(old(rbv)@, line@)) by {
                        crate::range_bound_variable::lemma_find_is_lookup_int(old(rbv).ints@,
                            parts@[0]@);
                    }
                }
                Ok(())
            },
            Err(e) => {
                proof {
                    crate::range_bound_variable::lemma_find_is_lookup_int(old(rbv).ints@,
                        parts@[0]@);
                }
                Err(e)
            },
        }
    } else {
        Err(ConfigError::UnknownVariableType)
    }
}

/// Parses a whole variable specification string.
pub fn parse_variables_from_string(s: &[u8]) -> (r: Result<RangeBoundVariables, ConfigError>)
    ensures
        r is Ok <==> spec_parse_variables(s@) is Some,
        r is Ok ==> Some(r->Ok_0@) == spec_parse_variables(s@),
        r is Ok ==> r->Ok_0.wf(),
{
    let lines = util::split_csv_string(s, 10);
    let ghost lv = spec_split(s@, 10);
    let mut rbv = RangeBoundVariables::new();
    let mut k: usize = 0;
    proof {
        assert(lv.take(0int) =~= Seq::<Seq<u8>>::empty());
        assert(rbv@ =~= spec_vars_empty());
    }
    while k < lines.len()
        invariant
            k <= lines@.len(),
            seq_views(lines@) == lv,
            lv == spec_split(s@, 10),
            rbv.wf(),
            Some(rbv@) == spec_parse_var_lines(spec_vars_empty(), lv.take(k as int)),
        decreases lines@.len() - k,
    {
        proof {
            assert(lv.take(k + 1).drop_last() =~= lv.take(k as int));
            assert(lv.take(k + 1).last() == lv[k as int]);
            assert(seq_views(lines@)[k as int] == lines@[k as int]@);
        }
        if !parser_utils::empty_or_comment(lines[k].as_slice()) {
            let ghost pre_m = rbv@;
            match apply_var_line(&mut rbv, lines[k].as_slice()) {
                Ok(()) => {},
                Err(e) => {
                    proof {
                        assert(spec_parse_var_line(pre_m, lv[k as int]) is None);
                        assert(spec_parse_var_lines(spec_vars_empty(), lv.take(k + 1)) is None);
                        lemma_var_lines_none_sticks(spec_vars_empty(), lv, k + 1);
                    }
                    return Err(e);
                },
            }
        }
        k += 1;
    }
    proof {
        assert(lv.take(lines@.len() as int) =~= lv);
    }
    Ok(rbv)
}

} // verus!
