use vstd::prelude::*;

verus! {

/// An exact rational value `num / den`.  Monetary quantities, indicator
/// values and optimization scores are all kept as exact rationals; a zero
/// denominator stands for an undefined value (a score over zero trades),
/// and every comparison involving an undefined value is false, the way
/// the engine treats a score that never materialized.
#[derive(Clone, Copy, Debug, PartialEq, Eq, Structural)]
pub struct Ratio {
    pub num: i64,
    pub den: i64,
}

/// `a` is strictly greater than `b`; false when either side is undefined.
pub open spec fn spec_ratio_gt(a: Ratio, b: Ratio) -> bool {
    if a.den <= 0 || b.den <= 0 {
        false
    } else {
        a.num * b.den > b.num * a.den
    }
}

/// The value of `a` is strictly below the integer `c`; false when undefined.
pub open spec fn spec_ratio_lt_int(a: Ratio, c: int) -> bool {
    if a.den <= 0 {
        false
    } else {
        a.num < c * a.den
    }
}

/// The value of `a` equals the integer `c`.
pub open spec fn spec_ratio_eq_int(a: Ratio, c: int) -> bool {
    a.den > 0 && a.num == c * a.den
}

proof fn lemma_i64_mul_fits(x: int, y: int)
    by (nonlinear_arith)
    requires
        -0x8000_0000_0000_0000 <= x <= 0x7FFF_FFFF_FFFF_FFFF,
        -0x8000_0000_0000_0000 <= y <= 0x7FFF_FFFF_FFFF_FFFF,
    ensures
        -0x4000_0000_0000_0000_0000_0000_0000_0000 <= x * y
            <= 0x4000_0000_0000_0000_0000_0000_0000_0000,
{
}

impl Ratio {
    /// Strict `self > other`, false when either side is undefined.
    pub fn gt(&self, other: &Ratio) -> (r: bool)
        ensures
            r == spec_ratio_gt(*self, *other),
    {
        if self.den <= 0 || other.den <= 0 {
            return false;
        }
        proof {
            lemma_i64_mul_fits(self.num as int, other.den as int);
            lemma_i64_mul_fits(other.num as int, self.den as int);
        }
        let l: i128 = (self.num as i128) * (other.den as i128);
        let r: i128 = (other.num as i128) * (self.den as i128);
        l > r
    }

    /// Strict `self < c` against an integer, false when undefined.
    pub fn lt_int(&self, c: i64) -> (r: bool)
        ensures
            r == spec_ratio_lt_int(*self, c as int),
    {
        if self.den <= 0 {
            return false;
        }
        proof {
            lemma_i64_mul_fits(c as int, self.den as int);
        }
        (self.num as i128) < (c as i128) * (self.den as i128)
    }

    /// Exact equality with an integer value.
    pub fn eq_int(&self, c: i64) -> (r: bool)
        ensures
            r == spec_ratio_eq_int(*self, c as int),
    {
        if self.den <= 0 {
            return false;
        }
        proof {
            lemma_i64_mul_fits(c as int, self.den as int);
        }
        (self.num as i128) == (c as i128) * (self.den as i128)
    }
}

/// A peak-to-trough drawdown, kept as the pair of the equity low and the
/// equity high-water mark it was measured against.  Its percentage value is
/// `100 * diff / high`, a non-positive number; keeping the pair instead of
/// a quotient makes every comparison exact.  The same pair denotes the same
/// percentage whether equities carry the quote-currency adjustment or not,
/// since a common scale factor cancels.
#[derive(Clone, Copy, Debug, PartialEq, Eq, Structural)]
pub struct Drawdown {
    /// Equity low minus the high-water mark: never positive.
    pub diff: i64,
    /// The high-water mark the low is measured against: always positive.
    pub high: i64,
}

impl Drawdown {
    /// A structurally valid drawdown: a non-positive percentage.
    pub open spec fn wf(self) -> bool {
        self.diff <= 0 && self.high >= 1
    }

    /// The zero drawdown.
    pub fn zero() -> (r: Drawdown)
        ensures
            r.wf(),
            r.diff == 0 && r.high == 1,
    {
        Drawdown { diff: 0, high: 1 }
    }
}

/// `a` is a strictly worse (more negative) drawdown than `b`.
pub open spec fn spec_dd_lt(a: Drawdown, b: Drawdown) -> bool {
    a.diff * b.high < b.diff * a.high
}

/// `a` is at worst as negative a drawdown as `b`.
pub open spec fn spec_dd_le(a: Drawdown, b: Drawdown) -> bool {
    a.diff * b.high <= b.diff * a.high
}

/// The drawdown `d` is strictly below `limit` percent.
pub open spec fn spec_dd_breach(d: Drawdown, limit: int) -> bool {
    100 * d.diff < limit * d.high
}

/// The percentage order on well-formed drawdowns is transitive.
pub proof fn lemma_dd_le_trans(a: Drawdown, b: Drawdown, c: Drawdown)
    by (nonlinear_arith)
    requires
        a.wf(),
        b.wf(),
        c.wf(),
        spec_dd_le(a, b),
        spec_dd_le(b, c),
    ensures
        spec_dd_le(a, c),
{
    assert(a.diff * b.high * c.high <= b.diff * a.high * c.high);
    assert(b.diff * c.high * a.high <= c.diff * b.high * a.high);
}

/// Strict percentage comparison of two drawdowns.
pub fn dd_lt(a: &Drawdown, b: &Drawdown) -> (r: bool)
    ensures
        r == spec_dd_lt(*a, *b),
{
    proof {
        lemma_i64_mul_fits(a.diff as int, b.high as int);
        lemma_i64_mul_fits(b.diff as int, a.high as int);
    }
    ((a.diff as i128) * (b.high as i128)) < ((b.diff as i128) * (a.high as i128))
}

/// Whether the drawdown `d` is strictly below `limit` percent.
pub fn dd_breach(d: &Drawdown, limit: i64) -> (r: bool)
    ensures
        r == spec_dd_breach(*d, limit as int),
{
    proof {
        lemma_i64_mul_fits(limit as int, d.high as int);
    }
    (100i128 * (d.diff as i128)) < ((limit as i128) * (d.high as i128))
}

} // verus!
