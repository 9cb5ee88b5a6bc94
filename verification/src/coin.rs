//! An amount of one denomination, written `<digits><letters>`.

use crate::error::Error;
use crate::text::{
    all_letters, all_letters_from, chars_of, decimal_text, digit_prefix_len, digit_run_end,
    digits_value, is_letter, lemma_decimal_text, lemma_digit_prefix_len, parse_digits, string_of,
};
use crate::uint128::Uint128;
use vstd::prelude::*;
use vstd::std_specs::cmp::PartialEqSpecImpl;

verus! {

/// The denomination that stands for "none".
pub const NO_DENOM: &'static str = "";

/// An amount of the token named `denom`.
#[derive(Debug, Eq, PartialOrd, Ord, Hash)]
pub struct Coin {
    pub denom: String,
    pub amount: Uint128,
}

/// The model of a coin: the characters of its denomination and its amount.
pub ghost struct CoinView {
    pub denom: Seq<char>,
    pub amount: nat,
}

impl View for Coin {
    type V = CoinView;

    open spec fn view(&self) -> CoinView {
        CoinView { denom: self.denom@, amount: self.amount@ }
    }
}

/// The model of an outcome that holds a coin.
pub open spec fn outcome_view(r: Result<Coin, Error>) -> Result<CoinView, Error> {
    match r {
        Ok(c) => Ok(c@),
        Err(e) => Err(e),
    }
}

/// The coin that text denotes: a run of digits that fits 128 bits, followed
/// to the end by one or more letters.
pub open spec fn coin_of_text(s: Seq<char>) -> Option<CoinView> {
    let n = digit_prefix_len(s) as int;
    let denom = s.skip(n);
    if n > 0 && denom.len() > 0 && all_letters(denom) && digits_value(s.take(n)) <= u128::MAX {
        Some(CoinView { denom, amount: digits_value(s.take(n)) })
    } else {
        None
    }
}

/// The text of a coin: its amount in digits, then its denomination.
pub open spec fn text_of_coin(c: CoinView) -> Seq<char> {
    decimal_text(c.amount) + c.denom
}

impl CoinView {
    /// The coin with the amount replaced by the outcome of an operation on it.
    pub open spec fn with_amount(self, r: Result<Uint128, Error>) -> Result<CoinView, Error> {
        match r {
            Ok(a) => Ok(CoinView { denom: self.denom, amount: a@ }),
            Err(e) => Err(e),
        }
    }

    /// The sum of two coins: `DenomMismatch` unless they share a
    /// denomination, `Overflow` where the sum does not fit.
    pub open spec fn plus(self, rhs: CoinView) -> Result<CoinView, Error> {
        if self.denom != rhs.denom {
            Err(Error::DenomMismatch)
        } else {
            self.with_amount(Uint128(self.amount as u128).spec_add(Uint128(rhs.amount as u128)))
        }
    }

    /// The difference of two coins: `DenomMismatch` unless they share a
    /// denomination, `Underflow` where it would be negative.
    pub open spec fn minus(self, rhs: CoinView) -> Result<CoinView, Error> {
        if self.denom != rhs.denom {
            Err(Error::DenomMismatch)
        } else {
            self.with_amount(Uint128(self.amount as u128).spec_sub(Uint128(rhs.amount as u128)))
        }
    }
}

impl PartialEq for Coin {
    fn eq(&self, other: &Self) -> (r: bool) {
        self.denom == other.denom && self.amount.0 == other.amount.0
    }
}

impl PartialEqSpecImpl for Coin {
    open spec fn obeys_eq_spec() -> bool {
        true
    }

    open spec fn eq_spec(&self, other: &Self) -> bool {
        self@ == other@
    }
}

impl Clone for Coin {
    fn clone(&self) -> (r: Self)
        ensures
            r@ == self@,
    {
        Coin { denom: self.denom.clone(), amount: self.amount }
    }
}

impl Coin {
    /// The coin of the given denomination and amount; neither is checked.
    pub fn new(denom: &str, amount: Uint128) -> (r: Self)
        ensures
            r@ == (CoinView { denom: denom@, amount: amount@ }),
    {
        Coin { denom: denom.to_owned(), amount }
    }

    /// Reads a coin from text such as `1000000uluna`.
    pub fn parse(coin_str: &str) -> (r: Result<Self, Error>)
        ensures
            match r {
                Ok(c) => coin_of_text(coin_str@) == Some(c@),
                Err(e) => e == Error::Parse && coin_of_text(coin_str@) is None,
            },
    {
        let v = chars_of(coin_str);
        assert(v@.subrange(0, v@.len() as int) =~= v@);
        parse_coin_between(&v, 0, v.len())
    }

    /// The amount in digits followed by the denomination.
    pub fn to_string(&self) -> (r: String)
        ensures
            r@ == text_of_coin(self@),
    {
        let mut s = self.amount.to_string();
        s.append(self.denom.as_str());
        s
    }

    /// Adds a coin of the same denomination.
    pub fn add(self, rhs: &Coin) -> (r: Result<Coin, Error>)
        ensures
            outcome_view(r) == self@.plus(rhs@),
    {
        if self.denom != rhs.denom {
            return Err(Error::DenomMismatch);
        }
        match self.amount.add(rhs.amount) {
            Ok(amount) => Ok(Coin { denom: self.denom, amount }),
            Err(e) => Err(e),
        }
    }

    /// Takes away a coin of the same denomination.
    pub fn sub(self, rhs: &Coin) -> (r: Result<Coin, Error>)
        ensures
            outcome_view(r) == self@.minus(rhs@),
    {
        if self.denom != rhs.denom {
            return Err(Error::DenomMismatch);
        }
        match self.amount.sub(rhs.amount) {
            Ok(amount) => Ok(Coin { denom: self.denom, amount }),
            Err(e) => Err(e),
        }
    }

    /// Adds a bare amount; the denomination stays.
    pub fn add_amount(self, rhs: Uint128) -> (r: Result<Coin, Error>)
        ensures
            outcome_view(r) == self@.with_amount(self.amount.spec_add(rhs)),
    {
        match self.amount.add(rhs) {
            Ok(amount) => Ok(Coin { denom: self.denom, amount }),
            Err(e) => Err(e),
        }
    }

    /// Takes away a bare amount; the denomination stays.
    pub fn sub_amount(self, rhs: Uint128) -> (r: Result<Coin, Error>)
        ensures
            outcome_view(r) == self@.with_amount(self.amount.spec_sub(rhs)),
    {
        match self.amount.sub(rhs) {
            Ok(amount) => Ok(Coin { denom: self.denom, amount }),
            Err(e) => Err(e),
        }
    }

    /// Multiplies the amount; the denomination stays.
    pub fn mul(self, rhs: Uint128) -> (r: Result<Coin, Error>)
        ensures
            outcome_view(r) == self@.with_amount(self.amount.spec_mul(rhs)),
    {
        match self.amount.mul(rhs) {
            Ok(amount) => Ok(Coin { denom: self.denom, amount }),
            Err(e) => Err(e),
        }
    }

    /// Divides the amount, rounding down; the denomination stays.
    pub fn div(self, rhs: Uint128) -> (r: Result<Coin, Error>)
        ensures
            outcome_view(r) == self@.with_amount(self.amount.spec_div(rhs)),
    {
        match self.amount.div(rhs) {
            Ok(amount) => Ok(Coin { denom: self.denom, amount }),
            Err(e) => Err(e),
        }
    }

    /// Leaves the remainder of the amount; the denomination stays.
    pub fn rem(self, rhs: Uint128) -> (r: Result<Coin, Error>)
        ensures
            outcome_view(r) == self@.with_amount(self.amount.spec_rem(rhs)),
    {
        match self.amount.rem(rhs) {
            Ok(amount) => Ok(Coin { denom: self.denom, amount }),
            Err(e) => Err(e),
        }
    }

    /// Adds a coin of the same denomination in place. On failure the coin is
    /// left as it was.
    pub fn add_assign(&mut self, rhs: &Coin) -> (r: Result<(), Error>)
        ensures
            match r {
                Ok(_) => Ok::<CoinView, Error>(final(self)@) == old(self)@.plus(rhs@),
                Err(e) => Err::<CoinView, Error>(e) == old(self)@.plus(rhs@) && *final(self)
                    == *old(self),
            },
    {
        if self.denom != rhs.denom {
            return Err(Error::DenomMismatch);
        }
        match self.amount.add(rhs.amount) {
            Ok(amount) => {
                self.amount = amount;
                Ok(())
            },
            Err(e) => Err(e),
        }
    }

    /// Takes away a coin of the same denomination in place. On failure the
    /// coin is left as it was.
    pub fn sub_assign(&mut self, rhs: &Coin) -> (r: Result<(), Error>)
        ensures
            match r {
                Ok(_) => Ok::<CoinView, Error>(final(self)@) == old(self)@.minus(rhs@),
                Err(e) => Err::<CoinView, Error>(e) == old(self)@.minus(rhs@) && *final(self)
                    == *old(self),
            },
    {
        if self.denom != rhs.denom {
            return Err(Error::DenomMismatch);
        }
        match self.amount.sub(rhs.amount) {
            Ok(amount) => {
                self.amount = amount;
                Ok(())
            },
            Err(e) => Err(e),
        }
    }

    /// Adds a bare amount in place. On failure the coin is left as it was.
    pub fn add_amount_assign(&mut self, rhs: Uint128) -> (r: Result<(), Error>)
        ensures
            match r {
                Ok(_) => Ok::<CoinView, Error>(final(self)@) == old(self)@.with_amount(
                    old(self).amount.spec_add(rhs),
                ),
                Err(e) => Err::<Uint128, Error>(e) == old(self).amount.spec_add(rhs) && *final(self)
                    == *old(self),
            },
    {
        match self.amount.add(rhs) {
            Ok(amount) => {
                self.amount = amount;
                Ok(())
            },
            Err(e) => Err(e),
        }
    }

    /// Takes away a bare amount in place. On failure the coin is left as it was.
    pub fn sub_amount_assign(&mut self, rhs: Uint128) -> (r: Result<(), Error>)
        ensures
            match r {
                Ok(_) => Ok::<CoinView, Error>(final(self)@) == old(self)@.with_amount(
                    old(self).amount.spec_sub(rhs),
                ),
                Err(e) => Err::<Uint128, Error>(e) == old(self).amount.spec_sub(rhs) && *final(self)
                    == *old(self),
            },
    {
        match self.amount.sub(rhs) {
            Ok(amount) => {
                self.amount = amount;
                Ok(())
            },
            Err(e) => Err(e),
        }
    }

    /// Multiplies the amount in place. On failure the coin is left as it was.
    pub fn mul_assign(&mut self, rhs: Uint128) -> (r: Result<(), Error>)
        ensures
            match r {
                Ok(_) => Ok::<CoinView, Error>(final(self)@) == old(self)@.with_amount(
                    old(self).amount.spec_mul(rhs),
                ),
                Err(e) => Err::<Uint128, Error>(e) == old(self).amount.spec_mul(rhs) && *final(self)
                    == *old(self),
            },
    {
        match self.amount.mul(rhs) {
            Ok(amount) => {
                self.amount = amount;
                Ok(())
            },
            Err(e) => Err(e),
        }
    }

    /// Divides the amount in place, rounding down. On failure the coin is left as it was.
    pub fn div_assign(&mut self, rhs: Uint128) -> (r: Result<(), Error>)
        ensures
            match r {
                Ok(_) => Ok::<CoinView, Error>(final(self)@) == old(self)@.with_amount(
                    old(self).amount.spec_div(rhs),
                ),
                Err(e) => Err::<Uint128, Error>(e) == old(self).amount.spec_div(rhs) && *final(self)
                    == *old(self),
            },
    {
        match self.amount.div(rhs) {
            Ok(amount) => {
                self.amount = amount;
                Ok(())
            },
            Err(e) => Err(e),
        }
    }

    /// Leaves the remainder of the amount in place. On failure the coin is left as it was.
    pub fn rem_assign(&mut self, rhs: Uint128) -> (r: Result<(), Error>)
        ensures
            match r {
                Ok(_) => Ok::<CoinView, Error>(final(self)@) == old(self)@.with_amount(
                    old(self).amount.spec_rem(rhs),
                ),
                Err(e) => Err::<Uint128, Error>(e) == old(self).amount.spec_rem(rhs) && *final(self)
                    == *old(self),
            },
    {
        match self.amount.rem(rhs) {
            Ok(amount) => {
                self.amount = amount;
                Ok(())
            },
            Err(e) => Err(e),
        }
    }
}

/// Text that can be read as a coin.
pub trait CoinMacroExprInput {
    /// The coin that the text denotes, if it denotes one.
    spec fn spec_coin(&self) -> Option<CoinView>;

    /// The coin that the text denotes.
    fn to_coin(&self) -> (c: Coin)
        requires
            self.spec_coin() is Some,
        ensures
            Some(c@) == self.spec_coin(),
    ;
}

impl CoinMacroExprInput for &str {
    open spec fn spec_coin(&self) -> Option<CoinView> {
        coin_of_text(self@)
    }

    fn to_coin(&self) -> (c: Coin) {
        Coin::parse(self).unwrap()
    }
}

impl CoinMacroExprInput for String {
    open spec fn spec_coin(&self) -> Option<CoinView> {
        coin_of_text(self@)
    }

    fn to_coin(&self) -> (c: Coin) {
        Coin::parse(self.as_str()).unwrap()
    }
}

/// A number that can be read as the amount of a coin.
pub trait CoinMacroAmount {
    /// The amount that the number stands for, if it is not negative.
    spec fn spec_uint(&self) -> Option<nat>;

    /// The amount that the number stands for.
    fn parse_uint(&self) -> (r: Uint128)
        requires
            self.spec_uint() is Some,
        ensures
            Some(r@) == self.spec_uint(),
    ;
}

impl CoinMacroAmount for usize {
    open spec fn spec_uint(&self) -> Option<nat> {
        Some(*self as nat)
    }

    fn parse_uint(&self) -> (r: Uint128) {
        Uint128(*self as u128)
    }
}

impl CoinMacroAmount for u8 {
    open spec fn spec_uint(&self) -> Option<nat> {
        Some(*self as nat)
    }

    fn parse_uint(&self) -> (r: Uint128) {
        Uint128(*self as u128)
    }
}

impl CoinMacroAmount for u16 {
    open spec fn spec_uint(&self) -> Option<nat> {
        Some(*self as nat)
    }

    fn parse_uint(&self) -> (r: Uint128) {
        Uint128(*self as u128)
    }
}

impl CoinMacroAmount for u32 {
    open spec fn spec_uint(&self) -> Option<nat> {
        Some(*self as nat)
    }

    fn parse_uint(&self) -> (r: Uint128) {
        Uint128(*self as u128)
    }
}

impl CoinMacroAmount for u64 {
    open spec fn spec_uint(&self) -> Option<nat> {
        Some(*self as nat)
    }

    fn parse_uint(&self) -> (r: Uint128) {
        Uint128(*self as u128)
    }
}

impl CoinMacroAmount for u128 {
    open spec fn spec_uint(&self) -> Option<nat> {
        Some(*self as nat)
    }

    fn parse_uint(&self) -> (r: Uint128) {
        Uint128(*self as u128)
    }
}

impl CoinMacroAmount for Uint128 {
    open spec fn spec_uint(&self) -> Option<nat> {
        Some(self@)
    }

    fn parse_uint(&self) -> (r: Uint128) {
        *self
    }
}

impl CoinMacroAmount for isize {
    open spec fn spec_uint(&self) -> Option<nat> {
        if *self < 0 {
            None
        } else {
            Some(*self as nat)
        }
    }

    fn parse_uint(&self) -> (r: Uint128) {
        Uint128::try_from(*self).unwrap()
    }
}

impl CoinMacroAmount for i8 {
    open spec fn spec_uint(&self) -> Option<nat> {
        if *self < 0 {
            None
        } else {
            Some(*self as nat)
        }
    }

    fn parse_uint(&self) -> (r: Uint128) {
        Uint128::try_from(*self).unwrap()
    }
}

impl CoinMacroAmount for i16 {
    open spec fn spec_uint(&self) -> Option<nat> {
        if *self < 0 {
            None
        } else {
            Some(*self as nat)
        }
    }

    fn parse_uint(&self) -> (r: Uint128) {
        Uint128::try_from(*self).unwrap()
    }
}

impl CoinMacroAmount for i32 {
    open spec fn spec_uint(&self) -> Option<nat> {
        if *self < 0 {
            None
        } else {
            Some(*self as nat)
        }
    }

    fn parse_uint(&self) -> (r: Uint128) {
        Uint128::try_from(*self).unwrap()
    }
}

impl CoinMacroAmount for i64 {
    open spec fn spec_uint(&self) -> Option<nat> {
        if *self < 0 {
            None
        } else {
            Some(*self as nat)
        }
    }

    fn parse_uint(&self) -> (r: Uint128) {
        Uint128::try_from(*self).unwrap()
    }
}

impl CoinMacroAmount for i128 {
    open spec fn spec_uint(&self) -> Option<nat> {
        if *self < 0 {
            None
        } else {
            Some(*self as nat)
        }
    }

    fn parse_uint(&self) -> (r: Uint128) {
        Uint128::try_from(*self).unwrap()
    }
}

/// Reads a coin from the characters of `v` between `lo` and `hi`.
pub fn parse_coin_between(v: &Vec<char>, lo: usize, hi: usize) -> (r: Result<Coin, Error>)
    requires
        lo <= hi <= v@.len(),
    ensures
        match r {
            Ok(c) => coin_of_text(v@.subrange(lo as int, hi as int)) == Some(c@),
            Err(e) => e == Error::Parse && coin_of_text(v@.subrange(lo as int, hi as int)) is None,
        },
{
    let piece = copy_between(v, lo, hi);
    let n: usize = piece.len();
    let end = digit_run_end(&piece, 0);
    proof {
        assert(piece@.skip(0) =~= piece@);
        assert(piece@.take(end as int) =~= piece@.subrange(0, end as int));
    }
    if end == 0 || end == n || !all_letters_from(&piece, end) {
        return Err(Error::Parse);
    }
    match parse_digits(&piece, 0, end) {
        Some(amount) => {
            let denom_chars = copy_between(&piece, end, n);
            assert(piece@.subrange(end as int, n as int) =~= piece@.skip(end as int));
            Ok(Coin { denom: string_of(&denom_chars), amount: Uint128(amount) })
        },
        None => Err(Error::Parse),
    }
}

/// The characters of `v` between `lo` and `hi`.
fn copy_between(v: &Vec<char>, lo: usize, hi: usize) -> (r: Vec<char>)
    requires
        lo <= hi <= v@.len(),
    ensures
        r@ == v@.subrange(lo as int, hi as int),
{
    let mut out: Vec<char> = Vec::new();
    let mut i: usize = lo;
    while i < hi
        invariant
            lo <= i <= hi <= v@.len(),
            out@ == v@.subrange(lo as int, i as int),
        decreases hi - i,
    {
        out.push(v[i]);
        assert(v@.subrange(lo as int, i + 1) =~= v@.subrange(lo as int, i as int).push(
            v@[i as int],
        ));
        i += 1;
    }
    out
}

/// Reading back what `to_string` wrote gives the same coin, for a coin whose
/// denomination is one or more letters.
pub proof fn lemma_coin_text_round_trip(c: Coin)
    requires
        c.denom@.len() > 0,
        all_letters(c.denom@),
    ensures
        coin_of_text(text_of_coin(c@)) == Some(c@),
{
    let digits = decimal_text(c.amount@);
    let t = text_of_coin(c@);
    lemma_decimal_text(c.amount@);
    assert(is_letter(c.denom@[0]));
    lemma_digit_prefix_len(digits, c.denom@);
    let n = digits.len() as int;
    assert(t.take(n) =~= digits);
    assert(t.skip(n) =~= c.denom@);
}

} // verus!
