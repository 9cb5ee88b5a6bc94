//! A non-negative amount of at most 128 bits, whose arithmetic fails where
//! the result would leave that range.

use crate::error::Error;
use crate::text::{
    all_digits, chars_of, decimal_text, digits_value, is_digit, is_digit_char, lemma_decimal_text,
    lemma_trim_end, lemma_trim_start, parse_digits, push_decimal, string_of, trim, trim_bounds,
};
use vstd::prelude::*;
use vstd::std_specs::convert::FromSpecImpl;
use vstd::std_specs::convert::TryFromSpecImpl;

verus! {

/// An unsigned amount. Its model is the natural number it holds.
#[derive(Debug, PartialEq, Eq, Ord, Clone, Copy, Hash, Structural)]
pub struct Uint128(pub u128);

impl View for Uint128 {
    type V = nat;

    open spec fn view(&self) -> nat {
        self.0 as nat
    }
}

/// What the text `s` denotes as an amount: zero for text that is empty once
/// trimmed, the value of a run of digits that fits 128 bits, and nothing else.
pub open spec fn amount_of_text(s: Seq<char>) -> Option<nat> {
    let t = trim(s);
    if t.len() == 0 {
        Some(0)
    } else if all_digits(t) && digits_value(t) <= u128::MAX {
        Some(digits_value(t))
    } else {
        None
    }
}

impl Uint128 {
    /// The sum, or `Overflow` where it does not fit.
    pub open spec fn spec_add(self, rhs: Uint128) -> Result<Uint128, Error> {
        if self.0 + rhs.0 > u128::MAX {
            Err(Error::Overflow)
        } else {
            Ok(Uint128((self.0 + rhs.0) as u128))
        }
    }

    /// The difference, or `Underflow` where it would be negative.
    pub open spec fn spec_sub(self, rhs: Uint128) -> Result<Uint128, Error> {
        if self.0 < rhs.0 {
            Err(Error::Underflow)
        } else {
            Ok(Uint128((self.0 - rhs.0) as u128))
        }
    }

    /// The product, or `Overflow` where it does not fit.
    pub open spec fn spec_mul(self, rhs: Uint128) -> Result<Uint128, Error> {
        if self.0 * rhs.0 > u128::MAX {
            Err(Error::Overflow)
        } else {
            Ok(Uint128((self.0 * rhs.0) as u128))
        }
    }

    /// The quotient rounded down, or `DivideByZero`.
    pub open spec fn spec_div(self, rhs: Uint128) -> Result<Uint128, Error> {
        if rhs.0 == 0 {
            Err(Error::DivideByZero)
        } else {
            Ok(Uint128(self.0 / rhs.0))
        }
    }

    /// The remainder, or `DivideByZero`.
    pub open spec fn spec_rem(self, rhs: Uint128) -> Result<Uint128, Error> {
        if rhs.0 == 0 {
            Err(Error::DivideByZero)
        } else {
            Ok(Uint128(self.0 % rhs.0))
        }
    }

    /// The amount `value`.
    pub fn new(value: u128) -> (r: Self)
        ensures
            r@ == value,
            r == Uint128(value),
    {
        Uint128(value)
    }

    /// The number held.
    pub fn u128(&self) -> (r: u128)
        ensures
            r == self@,
    {
        self.0
    }

    /// Reads an amount from decimal text; white space around it is ignored
    /// and empty text is zero.
    pub fn from_str(s: &str) -> (r: Result<Self, Error>)
        ensures
            match r {
                Ok(x) => amount_of_text(s@) == Some(x@),
                Err(e) => e == Error::Parse && amount_of_text(s@) is None,
            },
    {
        let v = chars_of(s);
        let (lo, hi) = trim_bounds(&v);
        let ghost t = v@.subrange(lo as int, hi as int);
        if lo == hi {
            return Ok(Uint128(0));
        }
        let mut i: usize = lo;
        while i < hi
            invariant
                lo <= i <= hi <= v@.len(),
                t == v@.subrange(lo as int, hi as int),
                t == trim(s@),
                lo < hi,
                forall|j: int| 0 <= j < i - lo ==> is_digit(#[trigger] t[j]),
            decreases hi - i,
        {
            if !is_digit_char(v[i]) {
                assert(!is_digit(t[i - lo]));
                assert(!all_digits(t));
                return Err(Error::Parse);
            }
            i += 1;
        }
        match parse_digits(&v, lo, hi) {
            Some(x) => Ok(Uint128(x)),
            None => Err(Error::Parse),
        }
    }

    /// The amount in decimal digits, without sign or separators.
    pub fn to_string(&self) -> (r: String)
        ensures
            r@ == decimal_text(self@),
    {
        let mut out: Vec<char> = Vec::new();
        push_decimal(self.0, &mut out);
        assert(out@ =~= decimal_text(self@));
        string_of(&out)
    }

    /// The sum, or `Overflow` where it does not fit.
    pub fn add(self, rhs: Uint128) -> (r: Result<Uint128, Error>)
        ensures
            r == self.spec_add(rhs),
    {
        match self.0.checked_add(rhs.0) {
            Some(x) => Ok(Uint128(x)),
            None => Err(Error::Overflow),
        }
    }

    /// The difference, or `Underflow` where it would be negative.
    pub fn sub(self, rhs: Uint128) -> (r: Result<Uint128, Error>)
        ensures
            r == self.spec_sub(rhs),
    {
        if self.0 < rhs.0 {
            Err(Error::Underflow)
        } else {
            Ok(Uint128(self.0 - rhs.0))
        }
    }

    /// The product, or `Overflow` where it does not fit.
    pub fn mul(self, rhs: Uint128) -> (r: Result<Uint128, Error>)
        ensures
            r == self.spec_mul(rhs),
    {
        match self.0.checked_mul(rhs.0) {
            Some(x) => Ok(Uint128(x)),
            None => Err(Error::Overflow),
        }
    }

    /// The quotient rounded down, or `DivideByZero`.
    pub fn div(self, rhs: Uint128) -> (r: Result<Uint128, Error>)
        ensures
            r == self.spec_div(rhs),
    {
        if rhs.0 == 0 {
            Err(Error::DivideByZero)
        } else {
            Ok(Uint128(self.0 / rhs.0))
        }
    }

    /// The remainder, or `DivideByZero`.
    pub fn rem(self, rhs: Uint128) -> (r: Result<Uint128, Error>)
        ensures
            r == self.spec_rem(rhs),
    {
        if rhs.0 == 0 {
            Err(Error::DivideByZero)
        } else {
            Ok(Uint128(self.0 % rhs.0))
        }
    }
}

impl Default for Uint128 {
    fn default() -> (r: Self)
        ensures
            r@ == 0,
    {
        Uint128(0)
    }
}

impl From<usize> for Uint128 {
    fn from(value: usize) -> (r: Self) {
        Uint128(value as u128)
    }
}

impl FromSpecImpl<usize> for Uint128 {
    open spec fn obeys_from_spec() -> bool {
        true
    }

    open spec fn from_spec(value: usize) -> Self {
        Uint128(value as u128)
    }
}

impl From<u8> for Uint128 {
    fn from(value: u8) -> (r: Self) {
        Uint128(value as u128)
    }
}

impl FromSpecImpl<u8> for Uint128 {
    open spec fn obeys_from_spec() -> bool {
        true
    }

    open spec fn from_spec(value: u8) -> Self {
        Uint128(value as u128)
    }
}

impl From<u16> for Uint128 {
    fn from(value: u16) -> (r: Self) {
        Uint128(value as u128)
    }
}

impl FromSpecImpl<u16> for Uint128 {
    open spec fn obeys_from_spec() -> bool {
        true
    }

    open spec fn from_spec(value: u16) -> Self {
        Uint128(value as u128)
    }
}

impl From<u32> for Uint128 {
    fn from(value: u32) -> (r: Self) {
        Uint128(value as u128)
    }
}

impl FromSpecImpl<u32> for Uint128 {
    open spec fn obeys_from_spec() -> bool {
        true
    }

    open spec fn from_spec(value: u32) -> Self {
        Uint128(value as u128)
    }
}

impl From<u64> for Uint128 {
    fn from(value: u64) -> (r: Self) {
        Uint128(value as u128)
    }
}

impl FromSpecImpl<u64> for Uint128 {
    open spec fn obeys_from_spec() -> bool {
        true
    }

    open spec fn from_spec(value: u64) -> Self {
        Uint128(value as u128)
    }
}

impl From<u128> for Uint128 {
    fn from(value: u128) -> (r: Self) {
        Uint128(value as u128)
    }
}

impl FromSpecImpl<u128> for Uint128 {
    open spec fn obeys_from_spec() -> bool {
        true
    }

    open spec fn from_spec(value: u128) -> Self {
        Uint128(value as u128)
    }
}

impl TryFrom<isize> for Uint128 {
    type Error = ();

    fn try_from(value: isize) -> (r: Result<Self, ()>) {
        if value < 0 {
            Err(())
        } else {
            Ok(Uint128(value as u128))
        }
    }
}

impl TryFromSpecImpl<isize> for Uint128 {
    open spec fn obeys_try_from_spec() -> bool {
        true
    }

    open spec fn try_from_spec(value: isize) -> Result<Self, ()> {
        if value < 0 {
            Err(())
        } else {
            Ok(Uint128(value as u128))
        }
    }
}

impl TryFrom<i8> for Uint128 {
    type Error = ();

    fn try_from(value: i8) -> (r: Result<Self, ()>) {
        if value < 0 {
            Err(())
        } else {
            Ok(Uint128(value as u128))
        }
    }
}

impl TryFromSpecImpl<i8> for Uint128 {
    open spec fn obeys_try_from_spec() -> bool {
        true
    }

    open spec fn try_from_spec(value: i8) -> Result<Self, ()> {
        if value < 0 {
            Err(())
        } else {
            Ok(Uint128(value as u128))
        }
    }
}

impl TryFrom<i16> for Uint128 {
    type Error = ();

    fn try_from(value: i16) -> (r: Result<Self, ()>) {
        if value < 0 {
            Err(())
        } else {
            Ok(Uint128(value as u128))
        }
    }
}

impl TryFromSpecImpl<i16> for Uint128 {
    open spec fn obeys_try_from_spec() -> bool {
        true
    }

    open spec fn try_from_spec(value: i16) -> Result<Self, ()> {
        if value < 0 {
            Err(())
        } else {
            Ok(Uint128(value as u128))
        }
    }
}

impl TryFrom<i32> for Uint128 {
    type Error = ();

    fn try_from(value: i32) -> (r: Result<Self, ()>) {
        if value < 0 {
            Err(())
        } else {
            Ok(Uint128(value as u128))
        }
    }
}

impl TryFromSpecImpl<i32> for Uint128 {
    open spec fn obeys_try_from_spec() -> bool {
        true
    }

    open spec fn try_from_spec(value: i32) -> Result<Self, ()> {
        if value < 0 {
            Err(())
        } else {
            Ok(Uint128(value as u128))
        }
    }
}

impl TryFrom<i64> for Uint128 {
    type Error = ();

    fn try_from(value: i64) -> (r: Result<Self, ()>) {
        if value < 0 {
            Err(())
        } else {
            Ok(Uint128(value as u128))
        }
    }
}

impl TryFromSpecImpl<i64> for Uint128 {
    open spec fn obeys_try_from_spec() -> bool {
        true
    }

    open spec fn try_from_spec(value: i64) -> Result<Self, ()> {
        if value < 0 {
            Err(())
        } else {
            Ok(Uint128(value as u128))
        }
    }
}

impl TryFrom<i128> for Uint128 {
    type Error = ();

    fn try_from(value: i128) -> (r: Result<Self, ()>) {
        if value < 0 {
            Err(())
        } else {
            Ok(Uint128(value as u128))
        }
    }
}

impl TryFromSpecImpl<i128> for Uint128 {
    open spec fn obeys_try_from_spec() -> bool {
        true
    }

    open spec fn try_from_spec(value: i128) -> Result<Self, ()> {
        if value < 0 {
            Err(())
        } else {
            Ok(Uint128(value as u128))
        }
    }
}

impl From<Uint128> for u128 {
    fn from(value: Uint128) -> (r: u128) {
        value.0
    }
}

impl FromSpecImpl<Uint128> for u128 {
    open spec fn obeys_from_spec() -> bool {
        true
    }

    open spec fn from_spec(value: Uint128) -> u128 {
        value.0
    }
}

/// Adding an amount and taking it away again gives back what one began with.
pub proof fn lemma_add_then_sub(a: Uint128, b: Uint128)
    requires
        a@ + b@ <= u128::MAX,
    ensures
        a.spec_add(b) is Ok,
        a.spec_add(b)->Ok_0.spec_sub(b) == Ok::<Uint128, Error>(a),
{
}

/// Dividing by zero, or taking a remainder by it, fails whatever the dividend.
pub proof fn lemma_divide_by_zero(a: Uint128)
    ensures
        a.spec_div(Uint128(0)) == Err::<Uint128, Error>(Error::DivideByZero),
        a.spec_rem(Uint128(0)) == Err::<Uint128, Error>(Error::DivideByZero),
{
}

/// Reading back what `to_string` wrote gives the amount again.
pub proof fn lemma_amount_text_round_trip(a: Uint128)
    ensures
        amount_of_text(decimal_text(a@)) == Some(a@),
{
    let t = decimal_text(a@);
    lemma_decimal_text(a@);
    assert(is_digit(t[0]));
    assert(is_digit(t.last()));
    lemma_trim_start(t, 0);
    assert(t.skip(0) =~= t);
    lemma_trim_end(t, t.len() as int);
    assert(t.take(t.len() as int) =~= t);
}

} // verus!
