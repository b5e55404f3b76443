use vstd::prelude::*;

use crate::errors::TradeError;
use crate::tick::{spec_iso_bytes, spec_price_bytes, push_iso_time, push_price, Tick, TickTime};
use crate::util;
use crate::util::{dec_digits, dec_pad, PRICE_MAX};

verus! {

/// The largest profit magnitude one trade can show, in millipips:
/// the full price range times the pip conversion.
pub const PROFIT_MAX: i64 = 100_000_000_000;

#[derive(Clone, Copy, Debug, PartialEq, Eq, Structural)]
pub enum TradeDirection {
    LONG,
    SHORT,
}

/// The lifecycle record of a single position.  A trade moves from open to
/// closed exactly once; every tick observed while it is open is appended
/// to its history.
pub struct Trade {
    pub id: u64,
    pub open: bool,
    pub direction: TradeDirection,
    pub opened_at: TickTime,
    pub closed_at: TickTime,
    /// Fill price: the ask for a long, the bid for a short.
    pub open_price: u64,
    pub close_price: u64,
    pub open_bid: u64,
    pub open_ask: u64,
    pub close_bid: u64,
    pub close_ask: u64,
    pub ticks: Vec<Tick>,
}

/// The mathematical shadow of a `Trade`.
#[verifier::ext_equal]
pub struct TradeModel {
    pub id: u64,
    pub open: bool,
    pub direction: TradeDirection,
    pub opened_at: TickTime,
    pub closed_at: TickTime,
    pub open_price: u64,
    pub close_price: u64,
    pub open_bid: u64,
    pub open_ask: u64,
    pub close_bid: u64,
    pub close_ask: u64,
    pub ticks: Seq<Tick>,
}

impl View for Trade {
    type V = TradeModel;

    open spec fn view(&self) -> TradeModel {
        TradeModel {
            id: self.id,
            open: self.open,
            direction: self.direction,
            opened_at: self.opened_at,
            closed_at: self.closed_at,
            open_price: self.open_price,
            close_price: self.close_price,
            open_bid: self.open_bid,
            open_ask: self.open_ask,
            close_bid: self.close_bid,
            close_ask: self.close_ask,
            ticks: self.ticks@,
        }
    }
}

pub open spec fn trades_views(s: Seq<Trade>) -> Seq<TradeModel> {
    s.map_values(|t: Trade| t@)
}

/// Profit of a price move in millipips: a pip is 10^-4 quote currency,
/// a price unit 10^-5, so each unit of movement is 100 millipips.
pub open spec fn spec_pip_profit(open_price: int, close_price: int) -> int {
    100 * (close_price - open_price)
}

/// Profit of a closed position, in millipips.  On raw quote prices the
/// pip profit is `(close - open) * 10000`; in price units and millipips
/// that is exactly `100 * (close - open)`.
pub fn pip_profit(open_price: u64, close_price: u64) -> (r: i64)
    requires
        open_price <= PRICE_MAX,
        close_price <= PRICE_MAX,
    ensures
        r == spec_pip_profit(open_price as int, close_price as int),
        -PROFIT_MAX <= r <= PROFIT_MAX,
{
    (close_price as i64) * 100 - (open_price as i64) * 100
}

impl TradeModel {
    pub open spec fn wf(self) -> bool {
        &&& self.open_price <= PRICE_MAX && self.close_price <= PRICE_MAX
        &&& self.open_bid <= PRICE_MAX && self.open_ask <= PRICE_MAX
        &&& self.close_bid <= PRICE_MAX && self.close_ask <= PRICE_MAX
        &&& self.opened_at.wf() && self.closed_at.wf()
        &&& self.ticks.len() >= 1
        &&& forall|i: int| 0 <= i < self.ticks.len() ==> (#[trigger] self.ticks[i]).wf()
    }

    pub open spec fn is_long(self) -> bool {
        self.direction == TradeDirection::LONG
    }

    /// The trade's profit in millipips: against its close price once
    /// closed, against its latest recorded tick while open.
    pub open spec fn profit(self) -> int {
        if self.open {
            if self.is_long() {
                spec_pip_profit(self.open_price as int, self.ticks.last().bid as int)
            } else {
                spec_pip_profit(self.ticks.last().ask as int, self.open_price as int)
            }
        } else {
            if self.is_long() {
                spec_pip_profit(self.open_price as int, self.close_price as int)
            } else {
                spec_pip_profit(self.close_price as int, self.open_price as int)
            }
        }
    }
}

pub proof fn lemma_trade_profit_bound(t: TradeModel)
    requires
        t.wf(),
    ensures
        -PROFIT_MAX <= t.profit() <= PROFIT_MAX,
{
}

/// The record of a freshly opened trade: filled at the ask when long, at
/// the bid when short, with the opening tick as its first history entry.
pub open spec fn spec_new_trade(t: Tick, direction: TradeDirection, id: u64) -> TradeModel {
    TradeModel {
        id,
        open: true,
        direction,
        opened_at: t.time,
        closed_at: TickTime { year: 1970, month: 1, day: 1, hour: 0, minute: 0, second: 0 },
        open_price: if direction == TradeDirection::LONG {
            t.ask
        } else {
            t.bid
        },
        close_price: 0,
        open_bid: t.bid,
        open_ask: t.ask,
        close_bid: 0,
        close_ask: 0,
        ticks: seq![t],
    }
}

/// The trade closed against the given tick: filled at the bid when long,
/// at the ask when short.
pub open spec fn spec_close_trade(t: TradeModel, k: Tick) -> TradeModel {
    TradeModel {
        open: false,
        closed_at: k.time,
        close_price: if t.is_long() {
            k.bid
        } else {
            k.ask
        },
        close_bid: k.bid,
        close_ask: k.ask,
        ..t
    }
}

impl Trade {
    fn new(tick: &Tick, direction: TradeDirection, id: u64) -> (r: Trade)
        requires
            tick.wf(),
        ensures
            r@ == spec_new_trade(*tick, direction, id),
            r@.wf(),
    {
        let open_price = match direction {
            TradeDirection::LONG => tick.ask,
            TradeDirection::SHORT => tick.bid,
        };
        let mut t = Trade {
            id,
            open: true,
            direction,
            opened_at: tick.time,
            closed_at: TickTime { year: 1970, month: 1, day: 1, hour: 0, minute: 0, second: 0 },
            open_price,
            close_price: 0,
            open_bid: tick.bid,
            open_ask: tick.ask,
            close_bid: 0,
            close_ask: 0,
            ticks: Vec::new(),
        };
        t.record_tick(*tick);
        proof {
            assert(t@.ticks =~= seq![*tick]);
            assert(t@ =~= spec_new_trade(*tick, direction, id));
        }
        t
    }

    /// Opens a long position on the given tick.
    pub fn new_long_trade(tick: &Tick, id: u64) -> (r: Trade)
        requires
            tick.wf(),
        ensures
            r@ == spec_new_trade(*tick, TradeDirection::LONG, id),
            r@.wf(),
    {
        Trade::new(tick, TradeDirection::LONG, id)
    }

    /// Opens a short position on the given tick.
    pub fn new_short_trade(tick: &Tick, id: u64) -> (r: Trade)
        requires
            tick.wf(),
        ensures
            r@ == spec_new_trade(*tick, TradeDirection::SHORT, id),
            r@.wf(),
    {
        Trade::new(tick, TradeDirection::SHORT, id)
    }

    /// Closes the trade against the given tick.  Closing a trade that is
    /// already closed is a contract violation and is refused, leaving the
    /// trade unchanged.
    pub fn close(&mut self, tick: &Tick) -> (r: Result<(), TradeError>)
        requires
            tick.wf(),
        ensures
            r is Ok <==> old(self)@.open,
            r is Ok ==> final(self)@ == spec_close_trade(old(self)@, *tick),
            r is Err ==> final(self)@ == old(self)@ && r->Err_0 == TradeError::DoubleClose,
            old(self)@.wf() ==> final(self)@.wf(),
    {
        if !self.open {
            proof {
                assert(self@ =~= old(self)@);
            }
            return Err(TradeError::DoubleClose);
        }
        let close_price = if self.is_long() {
            tick.bid
        } else {
            tick.ask
        };
        self.closed_at = tick.time;
        self.close_price = close_price;
        self.close_bid = tick.bid;
        self.close_ask = tick.ask;
        self.open = false;
        proof {
            assert(self@ =~= spec_close_trade(old(self)@, *tick));
        }
        Ok(())
    }

    pub fn get_id(&self) -> (r: u64)
        ensures
            r == self@.id,
    {
        self.id
    }

    pub fn is_open(&self) -> (r: bool)
        ensures
            r == self@.open,
    {
        self.open
    }

    pub fn is_closed(&self) -> (r: bool)
        ensures
            r == !self@.open,
    {
        !self.is_open()
    }

    pub fn is_long(&self) -> (r: bool)
        ensures
            r == self@.is_long(),
    {
        match self.direction {
            TradeDirection::LONG => true,
            TradeDirection::SHORT => false,
        }
    }

    pub fn is_short(&self) -> (r: bool)
        ensures
            r == !self@.is_long(),
    {
        !self.is_long()
    }

    /// The trade's profit in millipips, from its close price or, while it
    /// is open, from its latest recorded tick.
    pub fn profit(&self) -> (r: i64)
        requires
            self@.wf(),
        ensures
            r == self@.profit(),
            -PROFIT_MAX <= r <= PROFIT_MAX,
    {
        if self.is_open() {
            let last_tick = &self.ticks[self.ticks.len() - 1];
            if self.is_long() {
                pip_profit(self.open_price, last_tick.bid)
            } else {
                pip_profit(last_tick.ask, self.open_price)
            }
        } else {
            if self.is_long() {
                pip_profit(self.open_price, self.close_price)
            } else {
                pip_profit(self.close_price, self.open_price)
            }
        }
    }

    /// Appends one observed tick to the trade's history.
    pub fn record_tick(&mut self, tick: Tick)
        ensures
            final(self)@ == (TradeModel { ticks: old(self)@.ticks.push(tick), ..old(self)@ }),
    {
        self.ticks.push(tick);
        proof {
            assert(self@ =~= (TradeModel { ticks: old(self)@.ticks.push(tick), ..old(self)@ }));
        }
    }
}

// ----- rendering ------------------------------------------------------------

pub open spec fn spec_bool_bytes(b: bool) -> Seq<u8> {
    if b {
        seq![116u8, 114u8, 117u8, 101u8]
    } else {
        seq![102u8, 97u8, 108u8, 115u8, 101u8]
    }
}

pub fn push_bool(out: &mut Vec<u8>, b: bool)
    ensures
        final(out)@ == old(out)@ + spec_bool_bytes(b),
{
    if b {
        out.push(116);
        out.push(114);
        out.push(117);
        out.push(101);
    } else {
        out.push(102);
        out.push(97);
        out.push(108);
        out.push(115);
        out.push(101);
    }
    proof {
        assert(out@ =~= old(out)@ + spec_bool_bytes(b));
    }
}

/// A possibly negative price difference, rendered with five decimals.
pub open spec fn spec_spread_bytes(v: int) -> Seq<u8> {
    if v < 0 {
        seq![45u8] + spec_price_bytes((-v) as u64)
    } else {
        spec_price_bytes(v as u64)
    }
}

fn push_spread(out: &mut Vec<u8>, a: u64, b: u64)
    requires
        a <= PRICE_MAX,
        b <= PRICE_MAX,
    ensures
        final(out)@ == old(out)@ + spec_spread_bytes(a - b),
{
    if a >= b {
        push_price(out, a - b);
    } else {
        out.push(45);
        push_price(out, b - a);
    }
}

/// A millipip amount rendered as pips with one decimal place, truncated
/// toward zero.
pub open spec fn spec_pips_1dp(mp: int) -> Seq<u8> {
    if mp < 0 {
        seq![45u8] + spec_pips_mag((-mp) as nat)
    } else {
        spec_pips_mag(mp as nat)
    }
}

pub open spec fn spec_pips_mag(x: nat) -> Seq<u8> {
    dec_digits(x / 1000) + seq![46u8] + dec_pad(x % 1000 / 100, 1)
}

fn push_pips_1dp(out: &mut Vec<u8>, mp: i64)
    requires
        -PROFIT_MAX <= mp <= PROFIT_MAX,
    ensures
        final(out)@ == old(out)@ + spec_pips_1dp(mp as int),
{
    let mag: u64 = if mp < 0 {
        out.push(45);
        (-mp) as u64
    } else {
        mp as u64
    };
    util::push_u64_dec(out, mag / 1000);
    out.push(46);
    util::push_u64_pad(out, mag % 1000 / 100, 1);
}

/// One trade-log row, after the caller's simulation and trade id columns:
/// `<long>,<opened>,<closed>,<open price>,<close price>,<open spread>,
/// <close spread>,<profit pips>\n`.
pub open spec fn spec_trade_csv(t: TradeModel) -> Seq<u8> {
    spec_bool_bytes(t.is_long()) + seq![44u8] + spec_iso_bytes(t.opened_at) + seq![44u8]
        + spec_iso_bytes(t.closed_at) + seq![44u8] + spec_price_bytes(t.open_price) + seq![44u8]
        + spec_price_bytes(t.close_price) + seq![44u8]
        + spec_spread_bytes(t.open_ask - t.open_bid) + seq![44u8]
        + spec_spread_bytes(t.close_ask - t.close_bid) + seq![44u8] + spec_pips_1dp(t.profit())
        + seq![10u8]
}

impl Trade {
    /// This trade's log row.
    pub fn to_csv(&self) -> (r: Vec<u8>)
        requires
            self@.wf(),
        ensures
            r@ == spec_trade_csv(self@),
    {
        let mut out: Vec<u8> = Vec::new();
        push_bool(&mut out, self.is_long());
        out.push(44);
        push_iso_time(&mut out, &self.opened_at);
        out.push(44);
        push_iso_time(&mut out, &self.closed_at);
        out.push(44);
        push_price(&mut out, self.open_price);
        out.push(44);
        push_price(&mut out, self.close_price);
        out.push(44);
        push_spread(&mut out, self.open_ask, self.open_bid);
        out.push(44);
        push_spread(&mut out, self.close_ask, self.close_bid);
        out.push(44);
        let p = self.profit();
        push_pips_1dp(&mut out, p);
        out.push(10);
        proof {
            assert(out@ =~= spec_trade_csv(self@));
        }
        out
    }
}

} // verus!
