use vstd::prelude::*;

use crate::errors::ConfigError;
use crate::util;

verus! {

// ----- randomness ----------------------------------------------------------

/// Relies on rand::random::<bool>: one draw from the thread-local
/// generator.  Nothing can be promised of a random value.
#[verifier::external_body]
fn random_bool() -> bool {
    rand::random::<bool>()
}

/// Relies on rand::random_range over `lo..hi`: the draw always lies in the
/// half-open range; an empty range would panic, so it is excluded.
#[verifier::external_body]
fn random_in_range(lo: i64, hi: i64) -> (r: i64)
    requires
        lo < hi,
    ensures
        lo <= r < hi,
{
    rand::random_range(lo..hi)
}

/// Relies on rand::random_range over `lo..=hi`: the draw always lies in
/// the closed range; an empty range would panic, so it is excluded.
#[verifier::external_body]
fn random_in_range_inclusive(lo: i64, hi: i64) -> (r: i64)
    requires
        lo <= hi,
    ensures
        lo <= r <= hi,
{
    rand::random_range(lo..=hi)
}

// ----- the three variable kinds --------------------------------------------

/// A randomizable boolean, uniform over true and false.
#[derive(Clone, Copy, Debug, PartialEq, Eq, Structural)]
pub struct RangeBoundBool {
    pub value: bool,
}

impl RangeBoundBool {
    pub fn new() -> (r: RangeBoundBool)
        ensures
            r.value == false,
    {
        RangeBoundBool { value: false }
    }

    /// Replaces the value with a fresh draw.
    pub fn randomize(&mut self) {
        self.value = random_bool();
    }

    pub fn value(&self) -> (r: bool)
        ensures
            r == self.value,
    {
        self.value
    }
}

/// A randomizable fixed-point number, uniform in `[lower, upper)`.
/// Values are in units of 10^-5, the same grid as prices.
#[derive(Clone, Copy, Debug, PartialEq, Eq, Structural)]
pub struct RangeBoundFloat {
    pub lower: i64,
    pub upper: i64,
    pub value: i64,
}

impl RangeBoundFloat {
    pub open spec fn wf(self) -> bool {
        self.lower < self.upper
    }

    /// A new bounded value; the lower bound must lie strictly below the
    /// upper one.
    pub fn new(lower: i64, upper: i64) -> (r: Result<RangeBoundFloat, ConfigError>)
        ensures
            r is Ok <==> lower < upper,
            r is Ok ==> r->Ok_0 == (RangeBoundFloat { lower, upper, value: 0 }),
            r is Err ==> r->Err_0 == ConfigError::BadBounds,
    {
        if lower >= upper {
            return Err(ConfigError::BadBounds);
        }
        Ok(RangeBoundFloat { lower, upper, value: 0 })
    }

    /// Replaces the value with a fresh draw from `[lower, upper)`.
    pub fn randomize(&mut self)
        requires
            old(self).wf(),
        ensures
            final(self).lower == old(self).lower,
            final(self).upper == old(self).upper,
            final(self).lower <= final(self).value < final(self).upper,
    {
        self.value = random_in_range(self.lower, self.upper);
    }

    pub fn value(&self) -> (r: i64)
        ensures
            r == self.value,
    {
        self.value
    }
}

/// A randomizable integer, uniform in `[lower, upper]` (both inclusive).
#[derive(Clone, Copy, Debug, PartialEq, Eq, Structural)]
pub struct RangeBoundInteger {
    pub lower: i64,
    pub upper: i64,
    pub value: i64,
}

impl RangeBoundInteger {
    pub open spec fn wf(self) -> bool {
        self.lower < self.upper
    }

    /// A new bounded value; the lower bound must lie strictly below the
    /// upper one.
    pub fn new(lower: i64, upper: i64) -> (r: Result<RangeBoundInteger, ConfigError>)
        ensures
            r is Ok <==> lower < upper,
            r is Ok ==> r->Ok_0 == (RangeBoundInteger { lower, upper, value: 0 }),
            r is Err ==> r->Err_0 == ConfigError::BadBounds,
    {
        if lower >= upper {
            return Err(ConfigError::BadBounds);
        }
        Ok(RangeBoundInteger { lower, upper, value: 0 })
    }

    /// Replaces the value with a fresh draw from `[lower, upper]`.
    pub fn randomize(&mut self)
        requires
            old(self).wf(),
        ensures
            final(self).lower == old(self).lower,
            final(self).upper == old(self).upper,
            final(self).lower <= final(self).value <= final(self).upper,
    {
        self.value = random_in_range_inclusive(self.lower, self.upper);
    }

    pub fn value(&self) -> (r: i64)
        ensures
            r == self.value,
    {
        self.value
    }
}

// ----- the variable set -----------------------------------------------------

/// Three independent name-to-value mappings of the strategy's tunable
/// inputs.  Names are unique within their own kind; insertion order is
/// kept, so runs are reproducible given the same draws.
pub struct RangeBoundVariables {
    pub bools: Vec<(Vec<u8>, RangeBoundBool)>,
    pub floats: Vec<(Vec<u8>, RangeBoundFloat)>,
    pub ints: Vec<(Vec<u8>, RangeBoundInteger)>,
}

pub open spec fn bool_entries(s: Seq<(Vec<u8>, RangeBoundBool)>) -> Seq<(Seq<u8>, RangeBoundBool)> {
    s.map_values(|p: (Vec<u8>, RangeBoundBool)| (p.0@, p.1))
}

pub open spec fn float_entries(s: Seq<(Vec<u8>, RangeBoundFloat)>) -> Seq<
    (Seq<u8>, RangeBoundFloat),
> {
    s.map_values(|p: (Vec<u8>, RangeBoundFloat)| (p.0@, p.1))
}

pub open spec fn int_entries(s: Seq<(Vec<u8>, RangeBoundInteger)>) -> Seq<
    (Seq<u8>, RangeBoundInteger),
> {
    s.map_values(|p: (Vec<u8>, RangeBoundInteger)| (p.0@, p.1))
}

/// First-match lookup among the boolean entries.
pub open spec fn lookup_bool(s: Seq<(Seq<u8>, RangeBoundBool)>, name: Seq<u8>) -> Option<
    RangeBoundBool,
>
    decreases s.len(),
{
    if s.len() == 0 {
        None
    } else if s[0].0 == name {
        Some(s[0].1)
    } else {
        lookup_bool(s.skip(1), name)
    }
}

/// First-match lookup among the float entries.
pub open spec fn lookup_float(s: Seq<(Seq<u8>, RangeBoundFloat)>, name: Seq<u8>) -> Option<
    RangeBoundFloat,
>
    decreases s.len(),
{
    if s.len() == 0 {
        None
    } else if s[0].0 == name {
        Some(s[0].1)
    } else {
        lookup_float(s.skip(1), name)
    }
}

/// First-match lookup among the integer entries.
pub open spec fn lookup_int(s: Seq<(Seq<u8>, RangeBoundInteger)>, name: Seq<u8>) -> Option<
    RangeBoundInteger,
>
    decreases s.len(),
{
    if s.len() == 0 {
        None
    } else if s[0].0 == name {
        Some(s[0].1)
    } else {
        lookup_int(s.skip(1), name)
    }
}

/// The first-match lookup finds an entry exactly when one of this name
/// exists.
pub proof fn lemma_find_is_lookup_bool(s: Seq<(Vec<u8>, RangeBoundBool)>, name: Seq<u8>)
    ensures
        (lookup_bool(bool_entries(s), name) is Some) <==> exists|i: int|
            0 <= i < s.len() && (#[trigger] s[i]).0@ == name,
    decreases s.len(),
{
    if s.len() > 0 {
        assert(bool_entries(s)[0] == (s[0].0@, s[0].1));
        assert(bool_entries(s).skip(1) =~= bool_entries(s.skip(1)));
        lemma_find_is_lookup_bool(s.skip(1), name);
        if s[0].0@ == name {
            assert(0 <= 0 < s.len() && s[0].0@ == name);
        } else {
            if lookup_bool(bool_entries(s), name) is Some {
                let i = choose|i: int| 0 <= i < s.skip(1).len() && (#[trigger] s.skip(
                    1)[i]).0@ == name;
                assert(s[i + 1] == s.skip(1)[i]);
                assert(0 <= i + 1 < s.len() && s[i + 1].0@ == name);
            }
            if exists|i: int| 0 <= i < s.len() && (#[trigger] s[i]).0@ == name {
                let i = choose|i: int| 0 <= i < s.len() && (#[trigger] s[i]).0@ == name;
                assert(i != 0);
                assert(s.skip(1)[i - 1] == s[i]);
                assert(0 <= i - 1 < s.skip(1).len() && s.skip(1)[i - 1].0@ == name);
            }
        }
    }
}

/// The first-match lookup finds an entry exactly when one of this name
/// exists.
pub proof fn lemma_find_is_lookup_float(s: Seq<(Vec<u8>, RangeBoundFloat)>, name: Seq<u8>)
    ensures
        (lookup_float(float_entries(s), name) is Some) <==> exists|i: int|
            0 <= i < s.len() && (#[trigger] s[i]).0@ == name,
    decreases s.len(),
{
    if s.len() > 0 {
        assert(float_entries(s)[0] == (s[0].0@, s[0].1));
        assert(float_entries(s).skip(1) =~= float_entries(s.skip(1)));
        lemma_find_is_lookup_float(s.skip(1), name);
        if s[0].0@ == name {
            assert(0 <= 0 < s.len() && s[0].0@ == name);
        } else {
            if lookup_float(float_entries(s), name) is Some {
                let i = choose|i: int| 0 <= i < s.skip(1).len() && (#[trigger] s.skip(
                    1)[i]).0@ == name;
                assert(s[i + 1] == s.skip(1)[i]);
                assert(0 <= i + 1 < s.len() && s[i + 1].0@ == name);
            }
            if exists|i: int| 0 <= i < s.len() && (#[trigger] s[i]).0@ == name {
                let i = choose|i: int| 0 <= i < s.len() && (#[trigger] s[i]).0@ == name;
                assert(i != 0);
                assert(s.skip(1)[i - 1] == s[i]);
                assert(0 <= i - 1 < s.skip(1).len() && s.skip(1)[i - 1].0@ == name);
            }
        }
    }
}

/// The first-match lookup finds an entry exactly when one of this name
/// exists.
pub proof fn lemma_find_is_lookup_int(s: Seq<(Vec<u8>, RangeBoundInteger)>, name: Seq<u8>)
    ensures
        (lookup_int(int_entries(s), name) is Some) <==> exists|i: int|
            0 <= i < s.len() && (#[trigger] s[i]).0@ == name,
    decreases s.len(),
{
    if s.len() > 0 {
        assert(int_entries(s)[0] == (s[0].0@, s[0].1));
        assert(int_entries(s).skip(1) =~= int_entries(s.skip(1)));
        lemma_find_is_lookup_int(s.skip(1), name);
        if s[0].0@ == name {
            assert(0 <= 0 < s.len() && s[0].0@ == name);
        } else {
            if lookup_int(int_entries(s), name) is Some {
                let i = choose|i: int| 0 <= i < s.skip(1).len() && (#[trigger] s.skip(
                    1)[i]).0@ == name;
                assert(s[i + 1] == s.skip(1)[i]);
                assert(0 <= i + 1 < s.len() && s[i + 1].0@ == name);
            }
            if exists|i: int| 0 <= i < s.len() && (#[trigger] s[i]).0@ == name {
                let i = choose|i: int| 0 <= i < s.len() && (#[trigger] s[i]).0@ == name;
                assert(i != 0);
                assert(s.skip(1)[i - 1] == s[i]);
                assert(0 <= i - 1 < s.skip(1).len() && s.skip(1)[i - 1].0@ == name);
            }
        }
    }
}

/// The mathematical shadow of a `RangeBoundVariables`.
#[verifier::ext_equal]
pub struct RangeBoundVariablesModel {
    pub bools: Seq<(Seq<u8>, RangeBoundBool)>,
    pub floats: Seq<(Seq<u8>, RangeBoundFloat)>,
    pub ints: Seq<(Seq<u8>, RangeBoundInteger)>,
}

/// Two variable sets declare the same variables: the same names in the
/// same order of each kind, with the same bounds; only the current
/// values may differ.
pub open spec fn same_declaration(a: RangeBoundVariablesModel, b: RangeBoundVariablesModel) -> bool {
    &&& a.bools.len() == b.bools.len()
    &&& forall|i: int| 0 <= i < a.bools.len() ==> (#[trigger] a.bools[i]).0 == b.bools[i].0
    &&& a.floats.len() == b.floats.len()
    &&& forall|i: int| 0 <= i < a.floats.len() ==> {
        &&& (#[trigger] a.floats[i]).0 == b.floats[i].0
        &&& a.floats[i].1.lower == b.floats[i].1.lower
        &&& a.floats[i].1.upper == b.floats[i].1.upper
    }
    &&& a.ints.len() == b.ints.len()
    &&& forall|i: int| 0 <= i < a.ints.len() ==> {
        &&& (#[trigger] a.ints[i]).0 == b.ints[i].0
        &&& a.ints[i].1.lower == b.ints[i].1.lower
        &&& a.ints[i].1.upper == b.ints[i].1.upper
    }
}

impl View for RangeBoundVariables {
    type V = RangeBoundVariablesModel;

    open spec fn view(&self) -> RangeBoundVariablesModel {
        RangeBoundVariablesModel {
            bools: bool_entries(self.bools@),
            floats: float_entries(self.floats@),
            ints: int_entries(self.ints@),
        }
    }
}

impl RangeBoundVariables {
    /// Unique names per kind, valid bounds throughout.
    pub open spec fn wf(self) -> bool {
        &&& forall|i: int, j: int| 0 <= i < j < self.bools@.len()
            ==> (#[trigger] self.bools@[i]).0@ != (#[trigger] self.bools@[j]).0@
        &&& forall|i: int, j: int| 0 <= i < j < self.floats@.len()
            ==> (#[trigger] self.floats@[i]).0@ != (#[trigger] self.floats@[j]).0@
        &&& forall|i: int, j: int| 0 <= i < j < self.ints@.len()
            ==> (#[trigger] self.ints@[i]).0@ != (#[trigger] self.ints@[j]).0@
        &&& forall|i: int| 0 <= i < self.floats@.len()
            ==> (#[trigger] self.floats@[i]).1.wf()
        &&& forall|i: int| 0 <= i < self.ints@.len() ==> (#[trigger] self.ints@[i]).1.wf()
    }

    /// An empty variable set.
    pub fn new() -> (r: RangeBoundVariables)
        ensures
            r.wf(),
            r.bools@.len() == 0 && r.floats@.len() == 0 && r.ints@.len() == 0,
    {
        RangeBoundVariables { bools: Vec::new(), floats: Vec::new(), ints: Vec::new() }
    }

    fn find_bool(&self, name: &[u8]) -> (r: Option<usize>)
        ensures
            r is Some ==> 0 <= r->0 < self.bools@.len() && self.bools@[r->0 as int].0@ == name@,
            r is None ==> forall|i: int| 0 <= i < self.bools@.len()
                ==> (#[trigger] self.bools@[i]).0@ != name@,
    {
        let mut i: usize = 0;
        while i < self.bools.len()
            invariant
                i <= self.bools@.len(),
                forall|j: int| 0 <= j < i ==> (#[trigger] self.bools@[j]).0@ != name@,
            decreases self.bools@.len() - i,
        {
            if util::bytes_eq(self.bools[i].0.as_slice(), name) {
                return Some(i);
            }
            i += 1;
        }
        None
    }

    fn find_float(&self, name: &[u8]) -> (r: Option<usize>)
        ensures
            r is Some ==> 0 <= r->0 < self.floats@.len() && self.floats@[r->0 as int].0@ == name@,
            r is None ==> forall|i: int| 0 <= i < self.floats@.len()
                ==> (#[trigger] self.floats@[i]).0@ != name@,
    {
        let mut i: usize = 0;
        while i < self.floats.len()
            invariant
                i <= self.floats@.len(),
                forall|j: int| 0 <= j < i ==> (#[trigger] self.floats@[j]).0@ != name@,
            decreases self.floats@.len() - i,
        {
            if util::bytes_eq(self.floats[i].0.as_slice(), name) {
                return Some(i);
            }
            i += 1;
        }
        None
    }

    fn find_int(&self, name: &[u8]) -> (r: Option<usize>)
        ensures
            r is Some ==> 0 <= r->0 < self.ints@.len() && self.ints@[r->0 as int].0@ == name@,
            r is None ==> forall|i: int| 0 <= i < self.ints@.len()
                ==> (#[trigger] self.ints@[i]).0@ != name@,
    {
        let mut i: usize = 0;
        while i < self.ints.len()
            invariant
                i <= self.ints@.len(),
                forall|j: int| 0 <= j < i ==> (#[trigger] self.ints@[j]).0@ != name@,
            decreases self.ints@.len() - i,
        {
            if util::bytes_eq(self.ints[i].0.as_slice(), name) {
                return Some(i);
            }
            i += 1;
        }
        None
    }

    /// Declares a boolean variable; a second one of the same name is
    /// refused.
    pub fn create_bool(&mut self, name: Vec<u8>) -> (r: Result<(), ConfigError>)
        requires
            old(self).wf(),
        ensures
            final(self).wf(),
            r is Ok <==> (forall|i: int| 0 <= i < old(self).bools@.len()
                ==> (#[trigger] old(self).bools@[i]).0@ != name@),
            r is Ok ==> bool_entries(final(self).bools@) == bool_entries(old(self).bools@).push(
                (name@, RangeBoundBool { value: false })),
            r is Err ==> *final(self) == *old(self) && r->Err_0 == ConfigError::DuplicateName,
            final(self).floats@ == old(self).floats@,
            final(self).ints@ == old(self).ints@,
    {
        if self.find_bool(name.as_slice()).is_some() {
            return Err(ConfigError::DuplicateName);
        }
        self.bools.push((name, RangeBoundBool::new()));
        proof {
            assert(bool_entries(self.bools@) =~= bool_entries(old(self).bools@).push(
                (self.bools@.last().0@, self.bools@.last().1)));
        }
        Ok(())
    }

    /// Declares a float variable with its bounds; a duplicate name or an
    /// empty range is refused.
    pub fn create_float(&mut self, name: Vec<u8>, lower: i64, upper: i64) -> (r: Result<
        (),
        ConfigError,
    >)
        requires
            old(self).wf(),
        ensures
            final(self).wf(),
            r is Ok <==> ((forall|i: int| 0 <= i < old(self).floats@.len()
                ==> (#[trigger] old(self).floats@[i]).0@ != name@) && lower < upper),
            r is Ok ==> float_entries(final(self).floats@) == float_entries(
                old(self).floats@).push((name@, RangeBoundFloat { lower, upper, value: 0 })),
            r is Err ==> *final(self) == *old(self),
            final(self).bools@ == old(self).bools@,
            final(self).ints@ == old(self).ints@,
    {
        if self.find_float(name.as_slice()).is_some() {
            return Err(ConfigError::DuplicateName);
        }
        let v = match RangeBoundFloat::new(lower, upper) {
            Ok(v) => v,
            Err(e) => {
                return Err(e);
            },
        };
        self.floats.push((name, v));
        proof {
            assert(float_entries(self.floats@) =~= float_entries(old(self).floats@).push(
                (self.floats@.last().0@, self.floats@.last().1)));
        }
        Ok(())
    }

    /// Declares an integer variable with its bounds; a duplicate name or
    /// an empty range is refused.
    pub fn create_int(&mut self, name: Vec<u8>, lower: i64, upper: i64) -> (r: Result<
        (),
        ConfigError,
    >)
        requires
            old(self).wf(),
        ensures
            final(self).wf(),
            r is Ok <==> ((forall|i: int| 0 <= i < old(self).ints@.len()
                ==> (#[trigger] old(self).ints@[i]).0@ != name@) && lower < upper),
            r is Ok ==> int_entries(final(self).ints@) == int_entries(old(self).ints@).push(
                (name@, RangeBoundInteger { lower, upper, value: 0 })),
            r is Err ==> *final(self) == *old(self),
            final(self).bools@ == old(self).bools@,
            final(self).floats@ == old(self).floats@,
    {
        if self.find_int(name.as_slice()).is_some() {
            return Err(ConfigError::DuplicateName);
        }
        let v = match RangeBoundInteger::new(lower, upper) {
            Ok(v) => v,
            Err(e) => {
                return Err(e);
            },
        };
        self.ints.push((name, v));
        proof {
            assert(int_entries(self.ints@) =~= int_entries(old(self).ints@).push(
                (self.ints@.last().0@, self.ints@.last().1)));
        }
        Ok(())
    }

    /// The boolean variable of this name; unknown names are refused.
    pub fn get_bool(&self, name: &[u8]) -> (r: Result<bool, ConfigError>)
        ensures
            r is Ok <==> lookup_bool(bool_entries(self.bools@), name@) is Some,
            r is Ok ==> Some(RangeBoundBool { value: r->Ok_0 }) == lookup_bool(
                bool_entries(self.bools@), name@),
            r is Err ==> r->Err_0 == ConfigError::UnknownName,
    {
        proof {
            assert(bool_entries(self.bools@).skip(0) =~= bool_entries(self.bools@));
        }
        let mut i: usize = 0;
        while i < self.bools.len()
            invariant
                i <= self.bools@.len(),
                lookup_bool(bool_entries(self.bools@), name@) == lookup_bool(
                    bool_entries(self.bools@).skip(i as int), name@),
            decreases self.bools@.len() - i,
        {
            proof {
                let es = bool_entries(self.bools@);
                assert(es.skip(i as int)[0] == es[i as int]);
                assert(es.skip(i as int).skip(1) =~= es.skip(i + 1));
            }
            if util::bytes_eq(self.bools[i].0.as_slice(), name) {
                return Ok(self.bools[i].1.value());
            }
            i += 1;
        }
        proof {
            assert(bool_entries(self.bools@).skip(self.bools@.len() as int).len() == 0);
        }
        Err(ConfigError::UnknownName)
    }

    /// The float variable of this name, in 10^-5 units; unknown names are
    /// refused.
    pub fn get_float(&self, name: &[u8]) -> (r: Result<i64, ConfigError>)
        ensures
            r is Ok <==> lookup_float(float_entries(self.floats@), name@) is Some,
            r is Ok ==> r->Ok_0 == lookup_float(float_entries(self.floats@),
                name@)->Some_0.value,
            r is Err ==> r->Err_0 == ConfigError::UnknownName,
    {
        proof {
            assert(float_entries(self.floats@).skip(0) =~= float_entries(self.floats@));
        }
        let mut i: usize = 0;
        while i < self.floats.len()
            invariant
                i <= self.floats@.len(),
                lookup_float(float_entries(self.floats@), name@) == lookup_float(
                    float_entries(self.floats@).skip(i as int), name@),
            decreases self.floats@.len() - i,
        {
            proof {
                let es = float_entries(self.floats@);
                assert(es.skip(i as int)[0] == es[i as int]);
                assert(es.skip(i as int).skip(1) =~= es.skip(i + 1));
            }
            if util::bytes_eq(self.floats[i].0.as_slice(), name) {
                return Ok(self.floats[i].1.value());
            }
            i += 1;
        }
        proof {
            assert(float_entries(self.floats@).skip(self.floats@.len() as int).len() == 0);
        }
        Err(ConfigError::UnknownName)
    }

    /// The integer variable of this name; unknown names are refused.
    pub fn get_integer(&self, name: &[u8]) -> (r: Result<i64, ConfigError>)
        ensures
            r is Ok <==> lookup_int(int_entries(self.ints@), name@) is Some,
            r is Ok ==> r->Ok_0 == lookup_int(int_entries(self.ints@), name@)->Some_0.value,
            r is Err ==> r->Err_0 == ConfigError::UnknownName,
    {
        proof {
            assert(int_entries(self.ints@).skip(0) =~= int_entries(self.ints@));
        }
        let mut i: usize = 0;
        while i < self.ints.len()
            invariant
                i <= self.ints@.len(),
                lookup_int(int_entries(self.ints@), name@) == lookup_int(
                    int_entries(self.ints@).skip(i as int), name@),
            decreases self.ints@.len() - i,
        {
            proof {
                let es = int_entries(self.ints@);
                assert(es.skip(i as int)[0] == es[i as int]);
                assert(es.skip(i as int).skip(1) =~= es.skip(i + 1));
            }
            if util::bytes_eq(self.ints[i].0.as_slice(), name) {
                return Ok(self.ints[i].1.value());
            }
            i += 1;
        }
        proof {
            assert(int_entries(self.ints@).skip(self.ints@.len() as int).len() == 0);
        }
        Err(ConfigError::UnknownName)
    }

    /// Replaces every current value in place with a fresh independent
    /// draw: booleans uniform, floats uniform in `[lower, upper)`,
    /// integers uniform in `[lower, upper]`.  Names and bounds are kept.
    pub fn randomize(&mut self)
        requires
            old(self).wf(),
        ensures
            final(self).wf(),
            same_declaration(final(self)@, old(self)@),
            final(self).bools@.len() == old(self).bools@.len(),
            final(self).floats@.len() == old(self).floats@.len(),
            final(self).ints@.len() == old(self).ints@.len(),
            forall|i: int| 0 <= i < old(self).bools@.len()
                ==> (#[trigger] final(self).bools@[i]).0@ == old(self).bools@[i].0@,
            forall|i: int| 0 <= i < old(self).floats@.len() ==> {
                &&& (#[trigger] final(self).floats@[i]).0@ == old(self).floats@[i].0@
                &&& final(self).floats@[i].1.lower == old(self).floats@[i].1.lower
                &&& final(self).floats@[i].1.upper == old(self).floats@[i].1.upper
                &&& final(self).floats@[i].1.lower <= final(self).floats@[i].1.value
                    < final(self).floats@[i].1.upper
            },
            forall|i: int| 0 <= i < old(self).ints@.len() ==> {
                &&& (#[trigger] final(self).ints@[i]).0@ == old(self).ints@[i].0@
                &&& final(self).ints@[i].1.lower == old(self).ints@[i].1.lower
                &&& final(self).ints@[i].1.upper == old(self).ints@[i].1.upper
                &&& final(self).ints@[i].1.lower <= final(self).ints@[i].1.value
                    <= final(self).ints@[i].1.upper
            },
    {
        let mut i: usize = 0;
        while i < self.bools.len()
            invariant
                i <= self.bools@.len(),
                self.bools@.len() == old(self).bools@.len(),
                forall|j: int| 0 <= j < self.bools@.len()
                    ==> (#[trigger] self.bools@[j]).0@ == old(self).bools@[j].0@,
                self.floats@ == old(self).floats@,
                self.ints@ == old(self).ints@,
            decreases self.bools@.len() - i,
        {
            let ghost prev = self.bools@;
            let mut p = self.bools.remove(i);
            p.1.randomize();
            self.bools.insert(i, p);
            proof {
                assert(self.bools@ =~= prev.update(i as int, self.bools@[i as int]));
            }
            i += 1;
        }
        let mut i: usize = 0;
        while i < self.floats.len()
            invariant
                i <= self.floats@.len(),
                self.floats@.len() == old(self).floats@.len(),
                self.bools@.len() == old(self).bools@.len(),
                forall|j: int| 0 <= j < self.bools@.len()
                    ==> (#[trigger] self.bools@[j]).0@ == old(self).bools@[j].0@,
                forall|j: int| 0 <= j < i ==> {
                    &&& (#[trigger] self.floats@[j]).0@ == old(self).floats@[j].0@
                    &&& self.floats@[j].1.lower == old(self).floats@[j].1.lower
                    &&& self.floats@[j].1.upper == old(self).floats@[j].1.upper
                    &&& self.floats@[j].1.lower <= self.floats@[j].1.value
                        < self.floats@[j].1.upper
                },
                forall|j: int| i <= j < self.floats@.len()
                    ==> #[trigger] self.floats@[j] == old(self).floats@[j],
                self.ints@ == old(self).ints@,
                old(self).wf(),
            decreases self.floats@.len() - i,
        {
            let ghost prev = self.floats@;
            let mut p = self.floats.remove(i);
            p.1.randomize();
            self.floats.insert(i, p);
            proof {
                assert(self.floats@ =~= prev.update(i as int, self.floats@[i as int]));
            }
            i += 1;
        }
        let mut i: usize = 0;
        while i < self.ints.len()
            invariant
                i <= self.ints@.len(),
                self.ints@.len() == old(self).ints@.len(),
                self.bools@.len() == old(self).bools@.len(),
                forall|j: int| 0 <= j < self.bools@.len()
                    ==> (#[trigger] self.bools@[j]).0@ == old(self).bools@[j].0@,
                self.floats@.len() == old(self).floats@.len(),
                forall|j: int| 0 <= j < self.floats@.len() ==> {
                    &&& (#[trigger] self.floats@[j]).0@ == old(self).floats@[j].0@
                    &&& self.floats@[j].1.lower == old(self).floats@[j].1.lower
                    &&& self.floats@[j].1.upper == old(self).floats@[j].1.upper
                    &&& self.floats@[j].1.lower <= self.floats@[j].1.value
                        < self.floats@[j].1.upper
                },
                forall|j: int| 0 <= j < i ==> {
                    &&& (#[trigger] self.ints@[j]).0@ == old(self).ints@[j].0@
                    &&& self.ints@[j].1.lower == old(self).ints@[j].1.lower
                    &&& self.ints@[j].1.upper == old(self).ints@[j].1.upper
                    &&& self.ints@[j].1.lower <= self.ints@[j].1.value <= self.ints@[j].1.upper
                },
                forall|j: int| i <= j < self.ints@.len()
                    ==> #[trigger] self.ints@[j] == old(self).ints@[j],
                old(self).wf(),
            decreases self.ints@.len() - i,
        {
            let ghost prev = self.ints@;
            let mut p = self.ints.remove(i);
            p.1.randomize();
            self.ints.insert(i, p);
            proof {
                assert(self.ints@ =~= prev.update(i as int, self.ints@[i as int]));
            }
            i += 1;
        }
        proof {
            assert forall|j: int| 0 <= j < self@.bools.len() implies (
                #[trigger] self@.bools[j]).0 == old(self)@.bools[j].0 by {
                assert(self@.bools[j] == (self.bools@[j].0@, self.bools@[j].1));
                assert(old(self)@.bools[j] == (old(self).bools@[j].0@, old(self).bools@[j].1));
            }
            assert forall|j: int| 0 <= j < self@.floats.len() implies {
                &&& (#[trigger] self@.floats[j]).0 == old(self)@.floats[j].0
                &&& self@.floats[j].1.lower == old(self)@.floats[j].1.lower
                &&& self@.floats[j].1.upper == old(self)@.floats[j].1.upper
            } by {
                assert(self@.floats[j] == (self.floats@[j].0@, self.floats@[j].1));
                assert(old(self)@.floats[j] == (old(self).floats@[j].0@,
                    old(self).floats@[j].1));
            }
            assert forall|j: int| 0 <= j < self@.ints.len() implies {
                &&& (#[trigger] self@.ints[j]).0 == old(self)@.ints[j].0
                &&& self@.ints[j].1.lower == old(self)@.ints[j].1.lower
                &&& self@.ints[j].1.upper == old(self)@.ints[j].1.upper
            } by {
                assert(self@.ints[j] == (self.ints@[j].0@, self.ints@[j].1));
                assert(old(self)@.ints[j] == (old(self).ints@[j].0@, old(self).ints@[j].1));
            }
        }
    }
}

impl RangeBoundVariables {
    /// Parses a whole variable specification string; see the parsers
    /// module for the grammar.
    pub fn new_from_string(text: &[u8]) -> (r: Result<RangeBoundVariables, ConfigError>)
        ensures
            r is Ok <==> crate::parsers::spec_parse_variables(text@) is Some,
            r is Ok ==> Some(r->Ok_0@) == crate::parsers::spec_parse_variables(text@),
            r is Ok ==> r->Ok_0.wf(),
    {
        crate::parsers::parse_variables_from_string(text)
    }
}

/// An explicit deep copy: names, bounds and current values all carry over.
impl Clone for RangeBoundVariables {
    fn clone(&self) -> (r: RangeBoundVariables)
        ensures
            r@ == self@,
            bool_entries(r.bools@) == bool_entries(self.bools@),
            float_entries(r.floats@) == float_entries(self.floats@),
            int_entries(r.ints@) == int_entries(self.ints@),
            self.wf() ==> r.wf(),
    {
        let mut bools: Vec<(Vec<u8>, RangeBoundBool)> = Vec::new();
        let mut i: usize = 0;
        while i < self.bools.len()
            invariant
                i <= self.bools@.len(),
                bools@.len() == i,
                forall|j: int| 0 <= j < i ==> (#[trigger] bools@[j]).0@ == self.bools@[j].0@
                    && bools@[j].1 == self.bools@[j].1,
            decreases self.bools@.len() - i,
        {
            let name = util::slice_suffix(self.bools[i].0.as_slice(), 0);
            let v = self.bools[i].1;
            bools.push((name, v));
            i += 1;
        }
        let mut floats: Vec<(Vec<u8>, RangeBoundFloat)> = Vec::new();
        let mut i: usize = 0;
        while i < self.floats.len()
            invariant
                i <= self.floats@.len(),
                floats@.len() == i,
                forall|j: int| 0 <= j < i ==> (#[trigger] floats@[j]).0@ == self.floats@[j].0@
                    && floats@[j].1 == self.floats@[j].1,
            decreases self.floats@.len() - i,
        {
            let name = util::slice_suffix(self.floats[i].0.as_slice(), 0);
            let v = self.floats[i].1;
            floats.push((name, v));
            i += 1;
        }
        let mut ints: Vec<(Vec<u8>, RangeBoundInteger)> = Vec::new();
        let mut i: usize = 0;
        while i < self.ints.len()
            invariant
                i <= self.ints@.len(),
                ints@.len() == i,
                forall|j: int| 0 <= j < i ==> (#[trigger] ints@[j]).0@ == self.ints@[j].0@
                    && ints@[j].1 == self.ints@[j].1,
            decreases self.ints@.len() - i,
        {
            let name = util::slice_suffix(self.ints[i].0.as_slice(), 0);
            let v = self.ints[i].1;
            ints.push((name, v));
            i += 1;
        }
        let r = RangeBoundVariables { bools, floats, ints };
        proof {
            assert(bool_entries(r.bools@) =~= bool_entries(self.bools@));
            assert(float_entries(r.floats@) =~= float_entries(self.floats@));
            assert(int_entries(r.ints@) =~= int_entries(self.ints@));
            assert(r@ =~= self@);
        }
        r
    }
}

} // verus!
