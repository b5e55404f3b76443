use vstd::prelude::*;

use crate::errors::ConfigError;

verus! {

/// One price unit is 10^-5 of the quote currency; `SCALE` units make one
/// whole quote unit.  A pip (10^-4) is ten units.
pub const SCALE: u64 = 100_000;

/// Largest representable price: just under 10000 quote units.
pub const PRICE_MAX: u64 = 1_000_000_000;

// ----- byte helpers ------------------------------------------------------

pub open spec fn seq_views(s: Seq<Vec<u8>>) -> Seq<Seq<u8>> {
    s.map_values(|v: Vec<u8>| v@)
}

/// Exact byte-sequence equality of two slices.
pub fn bytes_eq(a: &[u8], b: &[u8]) -> (r: bool)
    ensures
        r == (a@ == b@),
{
    if a.len() != b.len() {
        assert(a@.len() != b@.len());
        return false;
    }
    let mut i: usize = 0;
    while i < a.len()
        invariant
            i <= a.len(),
            a@.len() == b@.len(),
            forall|j: int| 0 <= j < i ==> a@[j] == b@[j],
        decreases a.len() - i,
    {
        if a[i] != b[i] {
            return false;
        }
        i += 1;
    }
    proof {
        assert(a@ =~= b@);
    }
    true
}

// ----- splitting ---------------------------------------------------------

/// Index of the first occurrence of `d` in `s`, or -1 if there is none.
pub open spec fn first_delim(s: Seq<u8>, d: u8) -> int
    decreases s.len(),
{
    if s.len() == 0 {
        -1
    } else if s[0] == d {
        0
    } else {
        let r = first_delim(s.skip(1), d);
        if r < 0 {
            -1
        } else {
            r + 1
        }
    }
}

pub proof fn lemma_first_delim(s: Seq<u8>, d: u8)
    ensures
        first_delim(s, d) == -1 ==> forall|j: int| 0 <= j < s.len() ==> s[j] != d,
        first_delim(s, d) != -1 ==> {
            &&& 0 <= first_delim(s, d) < s.len()
            &&& s[first_delim(s, d)] == d
            &&& forall|j: int| 0 <= j < first_delim(s, d) ==> s[j] != d
        },
    decreases s.len(),
{
    if s.len() == 0 {
    } else if s[0] == d {
    } else {
        lemma_first_delim(s.skip(1), d);
        let r = first_delim(s.skip(1), d);
        assert forall|j: int| 0 <= j < s.len() && s[j] == d implies first_delim(s, d) != -1 by {
            if j > 0 {
                assert(s.skip(1)[j - 1] == d);
            }
        }
        if r >= 0 {
            assert(s[r + 1] == s.skip(1)[r]);
            assert forall|j: int| 0 <= j < r + 1 implies s[j] != d by {
                if j > 0 {
                    assert(s.skip(1)[j - 1] != d);
                }
            }
        }
    }
}

/// `s` split on the delimiter `d`: the pieces between occurrences of `d`,
/// in order.  Splitting the empty sequence gives one empty piece.
pub open spec fn spec_split(s: Seq<u8>, d: u8) -> Seq<Seq<u8>>
    decreases s.len(),
{
    let i = first_delim(s, d);
    if 0 <= i < s.len() {
        seq![s.take(i)] + spec_split(s.skip(i + 1), d)
    } else {
        seq![s]
    }
}

proof fn lemma_first_delim_concat(p: Seq<u8>, rest: Seq<u8>, d: u8)
    requires
        forall|j: int| 0 <= j < p.len() ==> p[j] != d,
    ensures
        first_delim(p + seq![d] + rest, d) == p.len(),
    decreases p.len(),
{
    let s = p + seq![d] + rest;
    if p.len() == 0 {
        assert(s[0] == d);
    } else {
        lemma_first_delim_concat(p.skip(1), rest, d);
        assert(s[0] == p[0]);
        assert(s.skip(1) =~= p.skip(1) + seq![d] + rest);
    }
}

proof fn lemma_split_step(p: Seq<u8>, rest: Seq<u8>, d: u8)
    requires
        forall|j: int| 0 <= j < p.len() ==> p[j] != d,
    ensures
        spec_split(p + seq![d] + rest, d) == seq![p] + spec_split(rest, d),
{
    let s = p + seq![d] + rest;
    lemma_first_delim_concat(p, rest, d);
    assert(s.take(p.len() as int) =~= p);
    assert(s.skip(p.len() as int + 1) =~= rest);
}

proof fn lemma_split_no_delim(s: Seq<u8>, d: u8)
    requires
        forall|j: int| 0 <= j < s.len() ==> s[j] != d,
    ensures
        spec_split(s, d) == seq![s],
{
    lemma_first_delim(s, d);
    if first_delim(s, d) != -1 {
        assert(s[first_delim(s, d)] == d);
    }
}

/// Splits `s` on the delimiter byte `d`.
pub fn split_csv_string(s: &[u8], d: u8) -> (r: Vec<Vec<u8>>)
    ensures
        seq_views(r@) == spec_split(s@, d),
        r@.len() >= 1,
{
    let mut out: Vec<Vec<u8>> = Vec::new();
    let mut cur: Vec<u8> = Vec::new();
    let mut i: usize = 0;
    proof {
        assert(s@.skip(0) =~= s@);
        assert(seq_views(out@) + spec_split(s@, d) =~= spec_split(s@, d));
    }
    while i < s.len()
        invariant
            cur@.len() <= i <= s.len(),
            cur@ =~= s@.subrange(i - cur@.len(), i as int),
            forall|j: int| 0 <= j < cur@.len() ==> cur@[j] != d,
            spec_split(s@, d) == seq_views(out@) + spec_split(s@.skip(i - cur@.len()), d),
        decreases s.len() - i,
    {
        let ghost st = i - cur@.len();
        if s[i] == d {
            proof {
                assert(s@.skip(st) =~= cur@ + seq![d] + s@.skip(i + 1));
                lemma_split_step(cur@, s@.skip(i + 1), d);
                assert(seq_views(out@.push(cur)) =~= seq_views(out@) + seq![cur@]);
                assert(seq_views(out@) + (seq![cur@] + spec_split(s@.skip(i + 1), d))
                    =~= seq_views(out@.push(cur)) + spec_split(s@.skip(i + 1), d));
            }
            out.push(cur);
            cur = Vec::new();
            i += 1;
            proof {
                assert(cur@ =~= s@.subrange(i as int, i as int));
            }
        } else {
            let b = s[i];
            cur.push(b);
            i += 1;
            proof {
                assert(cur@ =~= s@.subrange(i - cur@.len(), i as int));
            }
        }
    }
    proof {
        let ghost st = i - cur@.len();
        assert(s@.skip(st) =~= cur@);
        lemma_split_no_delim(cur@, d);
        assert(seq_views(out@.push(cur)) =~= seq_views(out@) + seq![cur@]);
    }
    out.push(cur);
    out
}

// ----- unsigned decimal parsing ------------------------------------------

pub open spec fn is_digit(b: u8) -> bool {
    48 <= b <= 57
}

pub open spec fn all_digits(s: Seq<u8>) -> bool {
    forall|j: int| 0 <= j < s.len() ==> is_digit(#[trigger] s[j])
}

/// The number denoted by a sequence of decimal digit bytes.
pub open spec fn dec_value(s: Seq<u8>) -> nat
    decreases s.len(),
{
    if s.len() == 0 {
        0
    } else {
        dec_value(s.drop_last()) * 10 + (s.last() - 48) as nat
    }
}

/// A well-formed unsigned decimal numeral that fits in a u64.
pub open spec fn valid_u64_str(s: Seq<u8>) -> bool {
    s.len() >= 1 && all_digits(s) && dec_value(s) <= u64::MAX
}

proof fn lemma_dec_value_take_le(s: Seq<u8>, i: int)
    requires
        0 <= i <= s.len(),
    ensures
        dec_value(s.take(i)) <= dec_value(s),
    decreases s.len() - i,
{
    if i < s.len() {
        lemma_dec_value_take_le(s, i + 1);
        assert(s.take(i + 1).drop_last() =~= s.take(i));
        assert(dec_value(s.take(i)) <= dec_value(s.take(i + 1)));
    } else {
        assert(s.take(i) =~= s);
    }
}

/// Powers of ten.
pub open spec fn pow10(n: nat) -> nat
    decreases n,
{
    if n == 0 {
        1
    } else {
        10 * pow10((n - 1) as nat)
    }
}

pub proof fn lemma_dec_value_bound(s: Seq<u8>)
    requires
        all_digits(s),
    ensures
        dec_value(s) < pow10(s.len()),
    decreases s.len(),
{
    if s.len() > 0 {
        assert(all_digits(s.drop_last())) by {
            assert(forall|j: int| 0 <= j < s.len() - 1 ==> s.drop_last()[j] == s[j]);
        }
        lemma_dec_value_bound(s.drop_last());
        assert(is_digit(s.last()));
    }
}

/// A numeral of at most five digits denotes a value below 100000.
pub proof fn lemma_dec_value_small(s: Seq<u8>)
    requires
        all_digits(s),
        s.len() <= 5,
    ensures
        dec_value(s) < 100000,
{
    lemma_dec_value_bound(s);
    assert(pow10(0) == 1);
    assert(pow10(1) == 10);
    assert(pow10(2) == 100);
    assert(pow10(3) == 1000);
    assert(pow10(4) == 10000);
    assert(pow10(5) == 100000);
    if s.len() < 5 {
        assert(dec_value(s) < pow10(s.len()));
        assert(pow10(s.len()) <= 100000) by {
            if s.len() == 0 {
            } else if s.len() == 1 {
            } else if s.len() == 2 {
            } else if s.len() == 3 {
            } else {
                assert(s.len() == 4);
            }
        }
    }
}

/// Parses an unsigned decimal numeral; `Ok` exactly on well-formed numerals
/// whose value fits in a u64.
pub fn parse_u64(s: &[u8]) -> (r: Result<u64, ConfigError>)
    ensures
        r is Ok <==> valid_u64_str(s@),
        r is Ok ==> r->Ok_0 == dec_value(s@),
        r is Err ==> r->Err_0 == ConfigError::BadNumber,
{
    if s.len() == 0 {
        return Err(ConfigError::BadNumber);
    }
    let mut acc: u64 = 0;
    let mut i: usize = 0;
    while i < s.len()
        invariant
            0 < s@.len(),
            i <= s.len(),
            all_digits(s@.take(i as int)),
            acc == dec_value(s@.take(i as int)),
        decreases s.len() - i,
    {
        let b = s[i];
        if b < 48 || b > 57 {
            return Err(ConfigError::BadNumber);
        }
        let d = (b - 48) as u64;
        if acc > (u64::MAX - d) / 10 {
            proof {
                assert(s@.take(i + 1).drop_last() =~= s@.take(i as int));
                assert(dec_value(s@.take(i + 1)) > u64::MAX);
                lemma_dec_value_take_le(s@, i + 1);
            }
            return Err(ConfigError::BadNumber);
        }
        proof {
            assert(s@.take(i + 1).drop_last() =~= s@.take(i as int));
        }
        acc = acc * 10 + d;
        i += 1;
    }
    proof {
        assert(s@.take(i as int) =~= s@);
    }
    Ok(acc)
}

// ----- signed decimal parsing --------------------------------------------

/// A well-formed signed decimal numeral whose magnitude fits in an i64.
/// (The single value `i64::MIN` is refused along with everything larger.)
pub open spec fn valid_i64_str(s: Seq<u8>) -> bool {
    if s.len() >= 1 && s[0] == 45 {
        valid_u64_str(s.skip(1)) && dec_value(s.skip(1)) <= i64::MAX
    } else {
        valid_u64_str(s) && dec_value(s) <= i64::MAX
    }
}

/// The value denoted by a well-formed signed decimal numeral.
pub open spec fn signed_dec_value(s: Seq<u8>) -> int {
    if s.len() >= 1 && s[0] == 45 {
        -(dec_value(s.skip(1)) as int)
    } else {
        dec_value(s) as int
    }
}

/// A well-formed signed decimal numeral whose value fits in an i32: the
/// domain of every integer field of the configuration grammar.
pub open spec fn valid_i32_str(s: Seq<u8>) -> bool {
    valid_i64_str(s) && -2147483648 <= signed_dec_value(s) <= 2147483647
}

/// Parses a signed decimal numeral (optional leading `-`) as a 32-bit
/// integer; any numeral outside the `i32` range is refused.
pub fn string_to_int(s: &[u8]) -> (r: Result<i32, ConfigError>)
    ensures
        r is Ok <==> valid_i32_str(s@),
        r is Ok ==> r->Ok_0 == signed_dec_value(s@),
        r is Err ==> r->Err_0 == ConfigError::BadNumber,
{
    if s.len() >= 1 && s[0] == 45 {
        let rest = slice_suffix(s, 1);
        match parse_u64(rest.as_slice()) {
            Ok(v) => {
                if v > 2_147_483_648 {
                    Err(ConfigError::BadNumber)
                } else if v == 2_147_483_648 {
                    Ok(i32::MIN)
                } else {
                    Ok(-(v as i32))
                }
            },
            Err(e) => Err(e),
        }
    } else {
        match parse_u64(s) {
            Ok(v) => {
                if v > 2_147_483_647 {
                    Err(ConfigError::BadNumber)
                } else {
                    Ok(v as i32)
                }
            },
            Err(e) => Err(e),
        }
    }
}

/// The suffix of `s` from `from` on.
pub fn slice_suffix(s: &[u8], from: usize) -> (r: Vec<u8>)
    requires
        from <= s@.len(),
    ensures
        r@ == s@.skip(from as int),
{
    let mut out: Vec<u8> = Vec::new();
    let mut i: usize = from;
    while i < s.len()
        invariant
            from <= i <= s.len(),
            out@ =~= s@.subrange(from as int, i as int),
        decreases s.len() - i,
    {
        let b = s[i];
        out.push(b);
        i += 1;
    }
    proof {
        assert(out@ =~= s@.skip(from as int));
    }
    out
}

// ----- decimal formatting -------------------------------------------------

/// The shortest decimal numeral of `n` (no leading zeros, except "0" itself).
pub open spec fn dec_digits(n: nat) -> Seq<u8>
    decreases n,
{
    if n < 10 {
        seq![(48 + n) as u8]
    } else {
        dec_digits(n / 10).push((48 + n % 10) as u8)
    }
}

/// `n` written in exactly `w` decimal digits, zero-padded on the left.
pub open spec fn dec_pad(n: nat, w: nat) -> Seq<u8>
    decreases w,
{
    if w == 0 {
        Seq::empty()
    } else {
        dec_pad(n / 10, (w - 1) as nat).push((48 + n % 10) as u8)
    }
}

/// Writes `n` in decimal onto the end of `out`.
pub fn push_u64_dec(out: &mut Vec<u8>, n: u64)
    ensures
        final(out)@ == old(out)@ + dec_digits(n as nat),
    decreases n,
{
    if n < 10 {
        out.push(48 + n as u8);
        return;
    }
    push_u64_dec(out, n / 10);
    out.push(48 + (n % 10) as u8);
}

/// Writes `n` in exactly `w` decimal digits, zero-padded, onto the end of `out`.
pub fn push_u64_pad(out: &mut Vec<u8>, n: u64, w: usize)
    ensures
        final(out)@ == old(out)@ + dec_pad(n as nat, w as nat),
    decreases w,
{
    if w == 0 {
        proof {
            assert(out@ =~= old(out)@ + dec_pad(n as nat, 0));
        }
        return;
    }
    push_u64_pad(out, n / 10, w - 1);
    out.push(48 + (n % 10) as u8);
}

/// The decimal numeral of a signed value: a `-` before the magnitude when
/// negative.
pub open spec fn signed_dec_digits(v: int) -> Seq<u8> {
    if v < 0 {
        seq![45u8] + dec_digits((-v) as nat)
    } else {
        dec_digits(v as nat)
    }
}

/// Writes `v` in signed decimal onto the end of `out`.
pub fn push_i64_dec(out: &mut Vec<u8>, v: i64)
    requires
        v > i64::MIN,
    ensures
        final(out)@ == old(out)@ + signed_dec_digits(v as int),
{
    if v < 0 {
        out.push(45);
        push_u64_dec(out, (-v) as u64);
    } else {
        push_u64_dec(out, v as u64);
    }
}

/// Appends a whole slice.
pub fn push_bytes(out: &mut Vec<u8>, s: &[u8])
    ensures
        final(out)@ == old(out)@ + s@,
{
    let mut i: usize = 0;
    while i < s.len()
        invariant
            i <= s.len(),
            out@ =~= old(out)@ + s@.subrange(0, i as int),
        decreases s.len() - i,
    {
        let b = s[i];
        out.push(b);
        i += 1;
    }
    proof {
        assert(out@ =~= old(out)@ + s@);
    }
}

// ----- fixed-point decimal parsing -----------------------------------------

/// The magnitude denoted by an unsigned decimal with an optional fraction
/// of up to five digits, in 10^-5 units.
pub open spec fn spec_scaled_mag(u: Seq<u8>) -> int {
    let ps = spec_split(u, 46);
    if ps.len() == 1 {
        dec_value(ps[0]) * SCALE
    } else {
        dec_value(ps[0]) * SCALE + dec_value(ps[1]) * pow10((5 - ps[1].len()) as nat)
    }
}

/// A well-formed fixed-point numeral: optional minus sign, integer
/// digits, optionally a dot and at most five fraction digits, with the
/// scaled magnitude inside an i64.  (Finer fractions than the engine's
/// 10^-5 grid are refused.)
pub open spec fn valid_scaled_str(s: Seq<u8>) -> bool {
    let u = if s.len() >= 1 && s[0] == 45 {
        s.skip(1)
    } else {
        s
    };
    let ps = spec_split(u, 46);
    &&& (ps.len() == 1 || ps.len() == 2)
    &&& ps[0].len() >= 1
    &&& all_digits(ps[0])
    &&& dec_value(ps[0]) <= u64::MAX
    &&& (ps.len() == 2 ==> all_digits(ps[1]) && ps[1].len() <= 5)
    &&& spec_scaled_mag(u) <= i64::MAX
}

/// The value denoted by a well-formed fixed-point numeral, in 10^-5 units.
pub open spec fn spec_scaled_value(s: Seq<u8>) -> int {
    if s.len() >= 1 && s[0] == 45 {
        -spec_scaled_mag(s.skip(1))
    } else {
        spec_scaled_mag(s)
    }
}

fn pow10_small(n: u64) -> (r: u64)
    requires
        n <= 5,
    ensures
        r == pow10(n as nat),
        r <= 100_000,
{
    proof {
        assert(pow10(0) == 1);
        assert(pow10(1) == 10);
        assert(pow10(2) == 100);
        assert(pow10(3) == 1000);
        assert(pow10(4) == 10000);
        assert(pow10(5) == 100000);
    }
    if n == 0 { 1 } else if n == 1 { 10 } else if n == 2 { 100 } else if n == 3 { 1000 }
    else if n == 4 { 10000 } else { 100000 }
}

fn parse_scaled_mag(u: &[u8]) -> (r: Result<u64, ConfigError>)
    ensures
        r is Ok <==> ({
            let ps = spec_split(u@, 46);
            &&& (ps.len() == 1 || ps.len() == 2)
            &&& ps[0].len() >= 1
            &&& all_digits(ps[0])
            &&& dec_value(ps[0]) <= u64::MAX
            &&& (ps.len() == 2 ==> all_digits(ps[1]) && ps[1].len() <= 5)
            &&& spec_scaled_mag(u@) <= i64::MAX
        }),
        r is Ok ==> 0 <= r->Ok_0 <= i64::MAX && r->Ok_0 == spec_scaled_mag(u@),
        r is Err ==> r->Err_0 == ConfigError::BadNumber,
{
    let ps = split_csv_string(u, 46);
    proof {
        assert(seq_views(ps@)[0] == ps@[0]@);
        if ps@.len() >= 2 {
            assert(seq_views(ps@)[1] == ps@[1]@);
        }
    }
    if ps.len() > 2 {
        return Err(ConfigError::BadNumber);
    }
    let whole = match parse_u64(ps[0].as_slice()) {
        Ok(v) => v,
        Err(e) => {
            return Err(e);
        },
    };
    let mut frac_scaled: u64 = 0;
    if ps.len() == 2 {
        if ps[1].len() > 5 {
            return Err(ConfigError::BadNumber);
        }
        let fv: u64 = if ps[1].len() == 0 {
            0
        } else {
            match parse_u64(ps[1].as_slice()) {
                Ok(v) => v,
                Err(e) => {
                    proof {
                        if all_digits(ps@[1]@) {
                            lemma_dec_value_small(ps@[1]@);
                        }
                    }
                    return Err(e);
                },
            }
        };
        proof {
            lemma_dec_value_small(ps@[1]@);
        }
        let p10 = pow10_small(5 - ps[1].len() as u64);
        proof {
            assert(fv * p10 <= 10_000_000_000) by (nonlinear_arith)
                requires
                    fv < 100_000,
                    p10 <= 100_000,
            ;
            assert(fv * p10 == dec_value(ps@[1]@) * pow10((5 - ps@[1]@.len()) as nat));
        }
        frac_scaled = fv * p10;
    } else {
        proof {
            assert(ps@.len() == 1);
        }
    }
    if whole > ((i64::MAX as u64) - frac_scaled) / SCALE {
        proof {
            assert(spec_scaled_mag(u@) > i64::MAX);
        }
        return Err(ConfigError::BadNumber);
    }
    Ok(whole * SCALE + frac_scaled)
}

/// Parses a fixed-point numeral such as `-1.5` or `42` into 10^-5 units.
pub fn string_to_float(s: &[u8]) -> (r: Result<i64, ConfigError>)
    ensures
        r is Ok <==> valid_scaled_str(s@),
        r is Ok ==> r->Ok_0 == spec_scaled_value(s@),
        r is Err ==> r->Err_0 == ConfigError::BadNumber,
{
    if s.len() >= 1 && s[0] == 45 {
        let rest = slice_suffix(s, 1);
        match parse_scaled_mag(rest.as_slice()) {
            Ok(m) => Ok(-(m as i64)),
            Err(e) => Err(e),
        }
    } else {
        match parse_scaled_mag(s) {
            Ok(m) => Ok(m as i64),
            Err(e) => Err(e),
        }
    }
}

// ----- configuration helpers ------------------------------------------------

pub open spec fn kw_week() -> Seq<u8> {
    seq![119u8, 101u8, 101u8, 107u8]
}

pub open spec fn kw_weeks() -> Seq<u8> {
    seq![119u8, 101u8, 101u8, 107u8, 115u8]
}

/// The bytes of the keyword `week`.
pub fn kw_week_vec() -> (r: Vec<u8>)
    ensures
        r@ == kw_week(),
{
    let mut v: Vec<u8> = Vec::new();
    v.push(119);
    v.push(101);
    v.push(101);
    v.push(107);
    proof {
        assert(v@ =~= kw_week());
    }
    v
}

/// The bytes of the keyword `weeks`.
pub fn kw_weeks_vec() -> (r: Vec<u8>)
    ensures
        r@ == kw_weeks(),
{
    let mut v = kw_week_vec();
    v.push(115);
    proof {
        assert(v@ =~= kw_weeks());
    }
    v
}

/// A valid window length: `<N> week(s)` with N at least 1.
pub open spec fn valid_time_span(s: Seq<u8>) -> bool {
    let parts = spec_split(s, 32);
    &&& parts.len() == 2
    &&& valid_u64_str(parts[0])
    &&& 1 <= dec_value(parts[0]) <= 0x7FFF_FFFF
    &&& (parts[1] == kw_week() || parts[1] == kw_weeks())
}

/// The number of days a valid window length denotes.
pub open spec fn spec_time_span_days(s: Seq<u8>) -> int {
    dec_value(spec_split(s, 32)[0]) * 7int
}

/// Converts a window length such as `2 weeks` into a day count.
pub fn config_time_to_days(s: &[u8]) -> (r: Result<i64, ConfigError>)
    ensures
        r is Ok <==> valid_time_span(s@),
        r is Ok ==> r->Ok_0 == spec_time_span_days(s@) && 7 <= r->Ok_0 <= 7 * 0x7FFF_FFFF,
{
    let parts = split_csv_string(s, 32);
    proof {
        assert(seq_views(parts@)[0] == parts@[0]@);
        if parts@.len() >= 2 {
            assert(seq_views(parts@)[1] == parts@[1]@);
        }
    }
    if parts.len() != 2 {
        return Err(ConfigError::BadTimeSpan);
    }
    let num = match parse_u64(parts[0].as_slice()) {
        Ok(v) => v,
        Err(_) => {
            return Err(ConfigError::BadNumber);
        },
    };
    if num < 1 || num > 0x7FFF_FFFF {
        return Err(ConfigError::BadNumber);
    }
    let wk = kw_week_vec();
    let wks = kw_weeks_vec();
    if bytes_eq(parts[1].as_slice(), wk.as_slice()) || bytes_eq(parts[1].as_slice(),
        wks.as_slice()) {
        Ok((num * 7) as i64)
    } else {
        Err(ConfigError::BadTimeSpan)
    }
}

/// Whether the first data line shows a quote currency quoted to 3 decimal
/// places (true) or 5 (false); anything else is refused.  Decided from
/// the decimal places of the line's last comma-separated field.
pub fn csv_is_jpy_base(line: &[u8]) -> (r: Result<bool, ConfigError>)
    ensures
        ({
            let stripped = crate::tick::spec_strip_newline(line@);
            let parts = spec_split(stripped, 44);
            let number_parts = spec_split(parts.last(), 46);
            let places = number_parts.last().len();
            &&& r is Ok <==> (places == 3 || places == 5)
            &&& r is Ok ==> r->Ok_0 == (places == 3)
            &&& r is Err ==> r->Err_0 == ConfigError::BadDecimalPlaces
        }),
{
    let stripped: Vec<u8> = if line.len() > 0 && line[line.len() - 1] == 10 {
        let mut v = slice_suffix(line, 0);
        v.pop();
        proof {
            assert(v@ =~= crate::tick::spec_strip_newline(line@));
        }
        v
    } else {
        let v = slice_suffix(line, 0);
        proof {
            assert(v@ =~= crate::tick::spec_strip_newline(line@));
        }
        v
    };
    let parts = split_csv_string(stripped.as_slice(), 44);
    proof {
        assert(seq_views(parts@).last() == parts@.last()@);
    }
    let number_parts = split_csv_string(parts[parts.len() - 1].as_slice(), 46);
    proof {
        assert(seq_views(number_parts@).last() == number_parts@.last()@);
    }
    let places = number_parts[number_parts.len() - 1].len();
    if places == 3 {
        Ok(true)
    } else if places == 5 {
        Ok(false)
    } else {
        Err(ConfigError::BadDecimalPlaces)
    }
}

// ----- calendar -----------------------------------------------------------

/// Month offsets of the day-of-week congruence.
pub open spec fn spec_month_term(m: int) -> int {
    if m == 1 { 0 } else if m == 2 { 3 } else if m == 3 { 2 }
    else if m == 4 { 5 } else if m == 5 { 0 } else if m == 6 { 3 }
    else if m == 7 { 5 } else if m == 8 { 1 } else if m == 9 { 4 }
    else if m == 10 { 6 } else if m == 11 { 2 } else { 4 }
}

/// Day of the week of a calendar date, 0 for Sunday through 6 for Saturday,
/// by the fixed congruence table.
pub open spec fn spec_day_of_week(y: int, m: int, d: int) -> int {
    let yy = if m < 3 { y - 1 } else { y };
    (yy + yy / 4 - yy / 100 + yy / 400 + spec_month_term(m) + d) % 7
}

fn month_term(m: u64) -> (r: u64)
    requires
        1 <= m <= 12,
    ensures
        r == spec_month_term(m as int),
{
    if m == 1 { 0 } else if m == 2 { 3 } else if m == 3 { 2 }
    else if m == 4 { 5 } else if m == 5 { 0 } else if m == 6 { 3 }
    else if m == 7 { 5 } else if m == 8 { 1 } else if m == 9 { 4 }
    else if m == 10 { 6 } else if m == 11 { 2 } else { 4 }
}

/// Day of the week, 0 = Sunday ... 6 = Saturday.
pub fn day_of_week(y: u64, m: u64, d: u64) -> (r: u64)
    requires
        1 <= y <= 100_000,
        1 <= m <= 12,
        d <= 1_000_000,
    ensures
        r == spec_day_of_week(y as int, m as int, d as int),
{
    let yy: u64 = if m < 3 { y - 1 } else { y };
    let t = month_term(m);
    (yy + yy / 4 - yy / 100 + yy / 400 + t + d) % 7
}

/// Whether `y` is a leap year of the Gregorian calendar.
pub open spec fn spec_is_leap_year(y: int) -> bool {
    y % 4 == 0 && (y % 100 != 0 || y % 400 == 0)
}

/// The number of days in a calendar month.
pub open spec fn spec_days_in_month(y: int, m: int) -> int {
    if m == 2 {
        if spec_is_leap_year(y) { 29 } else { 28 }
    } else if m == 4 || m == 6 || m == 9 || m == 11 {
        30
    } else {
        31
    }
}

/// The number of days in a calendar month.
pub fn days_in_month(y: i32, m: u8) -> (r: u8)
    requires
        1 <= m <= 12,
        y >= 1,
    ensures
        r == spec_days_in_month(y as int, m as int),
{
    if m == 2 {
        if y % 4 == 0 && (y % 100 != 0 || y % 400 == 0) { 29 } else { 28 }
    } else if m == 4 || m == 6 || m == 9 || m == 11 {
        30
    } else {
        31
    }
}

} // verus!
