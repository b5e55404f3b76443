use vstd::prelude::*;

use crate::errors::ConfigError;
use crate::util;
use crate::util::{
    all_digits, dec_digits, dec_pad, dec_value, seq_views, spec_day_of_week,
    spec_days_in_month, spec_split, valid_u64_str, PRICE_MAX, SCALE,
};

verus! {

/// One calendar moment, in UTC, second resolution.
#[derive(Clone, Copy, Debug, PartialEq, Eq, Structural)]
pub struct TickTime {
    pub year: i32,
    pub month: u8,
    pub day: u8,
    pub hour: u8,
    pub minute: u8,
    pub second: u8,
}

/// The number of seconds from the Unix epoch to the given UTC calendar
/// moment.  Named, not defined: the conversion is done by the `time` crate.
pub uninterp spec fn epoch_of(
    year: int,
    month: int,
    day: int,
    hour: int,
    minute: int,
    second: int,
) -> int;

/// Relies on time::Date::from_calendar_date, time::Time::from_hms and
/// time::OffsetDateTime::unix_timestamp: converts a valid UTC calendar
/// moment into its Unix timestamp, which is non-negative from 1970 on.
#[verifier::external_body]
fn epoch_seconds(year: i32, month: u8, day: u8, hour: u8, minute: u8, second: u8) -> (r: i64)
    requires
        1970 <= year <= 9999,
        1 <= month <= 12,
        1 <= day <= spec_days_in_month(year as int, month as int),
        hour < 24,
        minute < 60,
        second < 60,
    ensures
        r == epoch_of(year as int, month as int, day as int, hour as int, minute as int,
            second as int),
        r >= 0,
{
    let m = time::Month::try_from(month).unwrap();
    let date = time::Date::from_calendar_date(year, m, day).unwrap();
    let tod = time::Time::from_hms(hour, minute, second).unwrap();
    time::PrimitiveDateTime::new(date, tod).assume_utc().unix_timestamp()
}

impl TickTime {
    /// A valid calendar moment that the engine can work with.
    pub open spec fn wf(self) -> bool {
        &&& 1970 <= self.year <= 9999
        &&& 1 <= self.month <= 12
        &&& 1 <= self.day <= spec_days_in_month(self.year as int, self.month as int)
        &&& self.hour < 24
        &&& self.minute < 60
        &&& self.second < 60
    }

    /// The Unix timestamp of this moment.
    pub open spec fn spec_timestamp(self) -> int {
        epoch_of(self.year as int, self.month as int, self.day as int, self.hour as int,
            self.minute as int, self.second as int)
    }

    /// The start of the Unix epoch, used where no moment is known yet.
    pub fn epoch_start() -> (r: TickTime)
        ensures
            r.wf(),
            r.year == 1970 && r.month == 1 && r.day == 1,
            r.hour == 0 && r.minute == 0 && r.second == 0,
    {
        TickTime { year: 1970, month: 1, day: 1, hour: 0, minute: 0, second: 0 }
    }

    /// The Unix timestamp of this moment, via the calendar conversion.
    pub fn timestamp(&self) -> (r: i64)
        requires
            self.wf(),
        ensures
            r == self.spec_timestamp(),
            r >= 0,
    {
        epoch_seconds(self.year, self.month, self.day, self.hour, self.minute, self.second)
    }
}

/// One timestamped bid/ask sample: the atomic unit of input.
#[derive(Clone, Copy, Debug, PartialEq, Eq, Structural)]
pub struct Tick {
    pub time: TickTime,
    /// Unix timestamp of `time`, carried so that period bucketing is plain
    /// integer arithmetic.
    pub timestamp: u64,
    /// Bid price in units of 10^-5 quote currency.
    pub bid: u64,
    /// Ask price in units of 10^-5 quote currency.
    pub ask: u64,
}

/// The all-zero placeholder tick.
pub open spec fn spec_empty_tick() -> Tick {
    Tick {
        time: TickTime { year: 1970, month: 1, day: 1, hour: 0, minute: 0, second: 0 },
        timestamp: 0,
        bid: 0,
        ask: 0,
    }
}

impl Tick {
    /// The price fields are inside the engine's price range.
    pub open spec fn prices_wf(self) -> bool {
        self.bid <= PRICE_MAX && self.ask <= PRICE_MAX
    }

    /// A fully well-formed tick: valid calendar moment, matching timestamp,
    /// prices in range.
    pub open spec fn wf(self) -> bool {
        &&& self.time.wf()
        &&& self.timestamp == self.time.spec_timestamp()
        &&& self.prices_wf()
    }

    /// A tick at the given moment with the given prices.
    pub fn new(time: TickTime, bid: u64, ask: u64) -> (r: Tick)
        requires
            time.wf(),
            bid <= PRICE_MAX,
            ask <= PRICE_MAX,
        ensures
            r.wf(),
            r.time == time && r.bid == bid && r.ask == ask,
    {
        let ts = time.timestamp();
        Tick { time, timestamp: ts as u64, bid, ask }
    }

    /// The all-zero placeholder tick, used before any real tick is seen.
    pub fn empty_tick() -> (r: Tick)
        ensures
            r.prices_wf(),
            r == spec_empty_tick(),
            r.bid == 0 && r.ask == 0 && r.timestamp == 0,
    {
        Tick {
            time: TickTime::epoch_start(),
            timestamp: 0,
            bid: 0,
            ask: 0,
        }
    }

    /// Whether this tick falls on a Sunday.
    pub fn is_sunday(&self) -> (r: bool)
        requires
            self.time.wf(),
        ensures
            r == (spec_day_of_week(self.time.year as int, self.time.month as int,
                self.time.day as int) == 0),
    {
        0 == util::day_of_week(self.time.year as u64, self.time.month as u64,
            self.time.day as u64)
    }
}

// ----- tick line parsing ---------------------------------------------------

/// A sequence of decimal digit bytes denoting a value within `limit`.
pub open spec fn valid_field(s: Seq<u8>, lo: int, hi: int) -> bool {
    valid_u64_str(s) && lo <= dec_value(s) <= hi
}

/// `s` with one trailing newline removed, if any.
pub open spec fn spec_strip_newline(s: Seq<u8>) -> Seq<u8> {
    if s.len() > 0 && s.last() == 10 {
        s.drop_last()
    } else {
        s
    }
}

/// A well-formed price numeral: digits, a dot, exactly 3 or 5 fraction
/// digits (the two quote-precision conventions of the input data), value
/// within the engine's price range.
pub open spec fn valid_price_str(s: Seq<u8>) -> bool {
    let ps = spec_split(s, 46);
    &&& ps.len() == 2
    &&& valid_u64_str(ps[0])
    &&& all_digits(ps[1])
    &&& (ps[1].len() == 3 || ps[1].len() == 5)
    &&& spec_price_value(s) <= PRICE_MAX
}

/// The price denoted by a well-formed price numeral, in 10^-5 quote units.
pub open spec fn spec_price_value(s: Seq<u8>) -> int {
    let ps = spec_split(s, 46);
    let frac_scale: int = if ps[1].len() == 3 { 100 } else { 1 };
    dec_value(ps[0]) * SCALE + dec_value(ps[1]) * frac_scale
}

/// Parses a price numeral such as `1.23456` or `101.123`.
pub fn parse_price(s: &[u8]) -> (r: Result<u64, ConfigError>)
    ensures
        r is Ok <==> valid_price_str(s@),
        r is Ok ==> 0 <= r->Ok_0 <= PRICE_MAX && r->Ok_0 == spec_price_value(s@),
        r is Err ==> r->Err_0 == ConfigError::BadNumber,
{
    let ps = util::split_csv_string(s, 46);
    proof {
        assert(seq_views(ps@)[0] == ps@[0]@);
        if ps@.len() >= 2 {
            assert(seq_views(ps@)[1] == ps@[1]@);
        }
    }
    if ps.len() != 2 {
        return Err(ConfigError::BadNumber);
    }
    let frac = &ps[1];
    if !(frac.len() == 3 || frac.len() == 5) {
        return Err(ConfigError::BadNumber);
    }
    let whole = match util::parse_u64(ps[0].as_slice()) {
        Ok(v) => v,
        Err(e) => {
            return Err(e);
        },
    };
    let fv = match util::parse_u64(ps[1].as_slice()) {
        Ok(v) => v,
        Err(e) => {
            proof {
                assert(!valid_u64_str(ps@[1]@));
                assert(ps@[1]@.len() > 0);
                if all_digits(ps@[1]@) {
                    crate::util::lemma_dec_value_small(ps@[1]@);
                }
            }
            return Err(e);
        },
    };
    let frac_scale: u64 = if frac.len() == 3 { 100 } else { 1 };
    proof {
        assert(dec_value(ps@[1]@) < 100000) by {
            crate::util::lemma_dec_value_small(ps@[1]@);
        }
    }
    if whole > (PRICE_MAX - fv * frac_scale) / SCALE {
        proof {
            assert(spec_price_value(s@) > PRICE_MAX);
        }
        return Err(ConfigError::BadNumber);
    }
    Ok(whole * SCALE + fv * frac_scale)
}

/// The grammar of one tick line, newline already stripped:
/// `MM/DD/YYYY HH:MM:SS,<bid>,<ask>` with optional extra fields ignored.
pub open spec fn valid_tick_line(s: Seq<u8>) -> bool {
    let parts = spec_split(s, 44);
    &&& parts.len() >= 3
    &&& valid_stamp(parts[0])
    &&& valid_price_str(parts[1])
    &&& valid_price_str(parts[2])
}

/// The grammar of the timestamp field `MM/DD/YYYY HH:MM:SS`.
pub open spec fn valid_stamp(s: Seq<u8>) -> bool {
    let dt = spec_split(s, 32);
    &&& dt.len() == 2
    &&& {
        let date = spec_split(dt[0], 47);
        let tod = spec_split(dt[1], 58);
        &&& date.len() == 3
        &&& tod.len() == 3
        &&& valid_field(date[0], 1, 12)
        &&& valid_field(date[2], 1970, 9999)
        &&& valid_u64_str(date[1])
        &&& 1 <= dec_value(date[1])
            <= spec_days_in_month(dec_value(date[2]) as int, dec_value(date[0]) as int)
        &&& valid_field(tod[0], 0, 23)
        &&& valid_field(tod[1], 0, 59)
        &&& valid_field(tod[2], 0, 59)
    }
}

/// The calendar moment denoted by a well-formed timestamp field.
pub open spec fn spec_stamp_time(s: Seq<u8>) -> TickTime {
    let dt = spec_split(s, 32);
    let date = spec_split(dt[0], 47);
    let tod = spec_split(dt[1], 58);
    TickTime {
        year: dec_value(date[2]) as i32,
        month: dec_value(date[0]) as u8,
        day: dec_value(date[1]) as u8,
        hour: dec_value(tod[0]) as u8,
        minute: dec_value(tod[1]) as u8,
        second: dec_value(tod[2]) as u8,
    }
}

/// Parses a timestamp field `MM/DD/YYYY HH:MM:SS` into a calendar moment.
pub fn tm_from_string(s: &[u8]) -> (r: Result<TickTime, ConfigError>)
    ensures
        r is Ok <==> valid_stamp(s@),
        r is Ok ==> r->Ok_0 == spec_stamp_time(s@) && r->Ok_0.wf(),
{
    let dt = util::split_csv_string(s, 32);
    proof {
        assert(seq_views(dt@)[0] == dt@[0]@);
        if dt@.len() >= 2 {
            assert(seq_views(dt@)[1] == dt@[1]@);
        }
    }
    if dt.len() != 2 {
        return Err(ConfigError::MissingField);
    }
    let date = util::split_csv_string(dt[0].as_slice(), 47);
    let tod = util::split_csv_string(dt[1].as_slice(), 58);
    proof {
        assert(seq_views(date@)[0] == date@[0]@);
        assert(seq_views(tod@)[0] == tod@[0]@);
        if date@.len() >= 3 {
            assert(seq_views(date@)[1] == date@[1]@);
            assert(seq_views(date@)[2] == date@[2]@);
        }
        if tod@.len() >= 3 {
            assert(seq_views(tod@)[1] == tod@[1]@);
            assert(seq_views(tod@)[2] == tod@[2]@);
        }
    }
    if date.len() != 3 || tod.len() != 3 {
        return Err(ConfigError::MissingField);
    }
    let month = match util::parse_u64(date[0].as_slice()) {
        Ok(v) => v,
        Err(e) => { return Err(e); },
    };
    let day = match util::parse_u64(date[1].as_slice()) {
        Ok(v) => v,
        Err(e) => { return Err(e); },
    };
    let year = match util::parse_u64(date[2].as_slice()) {
        Ok(v) => v,
        Err(e) => { return Err(e); },
    };
    let hour = match util::parse_u64(tod[0].as_slice()) {
        Ok(v) => v,
        Err(e) => { return Err(e); },
    };
    let minute = match util::parse_u64(tod[1].as_slice()) {
        Ok(v) => v,
        Err(e) => { return Err(e); },
    };
    let second = match util::parse_u64(tod[2].as_slice()) {
        Ok(v) => v,
        Err(e) => { return Err(e); },
    };
    if !(1 <= month && month <= 12) {
        return Err(ConfigError::BadDate);
    }
    if !(1970 <= year && year <= 9999) {
        return Err(ConfigError::BadDate);
    }
    if day < 1 || day > util::days_in_month(year as i32, month as u8) as u64 {
        return Err(ConfigError::BadDate);
    }
    if hour > 23 || minute > 59 || second > 59 {
        return Err(ConfigError::BadDate);
    }
    Ok(TickTime {
        year: year as i32,
        month: month as u8,
        day: day as u8,
        hour: hour as u8,
        minute: minute as u8,
        second: second as u8,
    })
}

impl Tick {
    /// Parses one line of the tick data: timestamp, bid, ask, comma
    /// separated, with one trailing newline tolerated.
    pub fn new_from_line(line: &[u8]) -> (r: Result<Tick, ConfigError>)
        ensures
            r is Ok <==> valid_tick_line(spec_strip_newline(line@)),
            r is Ok ==> {
                let parts = spec_split(spec_strip_newline(line@), 44);
                &&& r->Ok_0.wf()
                &&& r->Ok_0.time == spec_stamp_time(parts[0])
                &&& r->Ok_0.bid == spec_price_value(parts[1])
                &&& r->Ok_0.ask == spec_price_value(parts[2])
            },
    {
        let stripped: Vec<u8> = if line.len() > 0 && line[line.len() - 1] == 10 {
            let mut v = util::slice_suffix(line, 0);
            v.pop();
            proof {
                assert(v@ =~= spec_strip_newline(line@));
            }
            v
        } else {
            let v = util::slice_suffix(line, 0);
            proof {
                assert(v@ =~= spec_strip_newline(line@));
            }
            v
        };
        let parts = util::split_csv_string(stripped.as_slice(), 44);
        proof {
            assert(seq_views(parts@)[0] == parts@[0]@);
            if parts@.len() >= 3 {
                assert(seq_views(parts@)[1] == parts@[1]@);
                assert(seq_views(parts@)[2] == parts@[2]@);
            }
        }
        if parts.len() < 3 {
            return Err(ConfigError::MissingField);
        }
        let time = match tm_from_string(parts[0].as_slice()) {
            Ok(t) => t,
            Err(e) => { return Err(e); },
        };
        let bid = match parse_price(parts[1].as_slice()) {
            Ok(v) => v,
            Err(e) => { return Err(e); },
        };
        let ask = match parse_price(parts[2].as_slice()) {
            Ok(v) => v,
            Err(e) => { return Err(e); },
        };
        Ok(Tick::new(time, bid, ask))
    }
}

// ----- rendering ------------------------------------------------------------

/// A price rendered with its full five decimal places.
pub open spec fn spec_price_bytes(p: u64) -> Seq<u8> {
    dec_digits((p / SCALE) as nat) + seq![46u8] + dec_pad((p % SCALE) as nat, 5)
}

/// A calendar moment rendered as `YYYY-MM-DD HH:MM:SS`.
pub open spec fn spec_iso_bytes(t: TickTime) -> Seq<u8> {
    dec_pad(t.year as nat, 4) + seq![45u8] + dec_pad(t.month as nat, 2) + seq![45u8]
        + dec_pad(t.day as nat, 2) + seq![32u8] + dec_pad(t.hour as nat, 2) + seq![58u8]
        + dec_pad(t.minute as nat, 2) + seq![58u8] + dec_pad(t.second as nat, 2)
}

/// The audit-log row of one tick: `<bid>,<ask>,<time>\n`.
pub open spec fn spec_tick_csv(t: Tick) -> Seq<u8> {
    spec_price_bytes(t.bid) + seq![44u8] + spec_price_bytes(t.ask) + seq![44u8]
        + spec_iso_bytes(t.time) + seq![10u8]
}

/// Writes a price with its five decimal places onto `out`.
pub fn push_price(out: &mut Vec<u8>, p: u64)
    ensures
        final(out)@ == old(out)@ + spec_price_bytes(p),
{
    util::push_u64_dec(out, p / SCALE);
    out.push(46);
    util::push_u64_pad(out, p % SCALE, 5);
}

/// Writes a calendar moment as `YYYY-MM-DD HH:MM:SS` onto `out`.
pub fn push_iso_time(out: &mut Vec<u8>, t: &TickTime)
    requires
        t.wf(),
    ensures
        final(out)@ == old(out)@ + spec_iso_bytes(*t),
{
    util::push_u64_pad(out, t.year as u64, 4);
    out.push(45);
    util::push_u64_pad(out, t.month as u64, 2);
    out.push(45);
    util::push_u64_pad(out, t.day as u64, 2);
    out.push(32);
    util::push_u64_pad(out, t.hour as u64, 2);
    out.push(58);
    util::push_u64_pad(out, t.minute as u64, 2);
    out.push(58);
    util::push_u64_pad(out, t.second as u64, 2);
}

/// Converts a timestamp field straight to its Unix timestamp.
pub fn timespec_from_string(s: &[u8]) -> (r: Result<i64, ConfigError>)
    ensures
        r is Ok <==> valid_stamp(s@),
        r is Ok ==> r->Ok_0 == spec_stamp_time(s@).spec_timestamp() && r->Ok_0 >= 0,
{
    match tm_from_string(s) {
        Ok(t) => Ok(t.timestamp()),
        Err(e) => Err(e),
    }
}

/// A calendar moment rendered as `YYYY-MM-DD HH:MM:SS`.
pub fn tm_to_iso(t: &TickTime) -> (r: Vec<u8>)
    requires
        t.wf(),
    ensures
        r@ == spec_iso_bytes(*t),
{
    let mut out: Vec<u8> = Vec::new();
    push_iso_time(&mut out, t);
    proof {
        assert(out@ =~= spec_iso_bytes(*t));
    }
    out
}

impl Tick {
    /// This tick's audit-log row.
    pub fn to_csv(&self) -> (r: Vec<u8>)
        requires
            self.time.wf(),
        ensures
            r@ == spec_tick_csv(*self),
    {
        let mut out: Vec<u8> = Vec::new();
        push_price(&mut out, self.bid);
        out.push(44);
        push_price(&mut out, self.ask);
        out.push(44);
        push_iso_time(&mut out, &self.time);
        out.push(10);
        out
    }
}

} // verus!
