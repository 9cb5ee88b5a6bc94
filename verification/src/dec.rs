//! A signed decimal number with eighteen fractional digits, held as an
//! integer count of units of 10^-18.

use crate::error::Error;
use crate::text::{
    all_digits, all_digits_from, chars_of, decimal_text, digit_prefix_len, digit_run_end,
    digits_value, fixed_text, is_digit, lemma_decimal_text, lemma_digit_prefix_len,
    lemma_digits_value_bound, lemma_fixed_text, lemma_pow10_38, lemma_pow10_monotonic,
    parse_digits, pow10, pow10_of, push_decimal, push_fixed, string_of,
};
use vstd::prelude::*;
use vstd::std_specs::convert::FromSpecImpl;

verus! {

/// How many fractional digits a `Dec` keeps.
pub const DEC_PRECISION: u32 = 18;

/// The raw value of the decimal 1.
pub const DEC_ONE: i128 = 1_000_000_000_000_000_000;

/// A decimal number. Its model is the raw integer `r`; the number it stands
/// for is `r / 10^18`.
#[derive(Debug, PartialEq, Eq, Ord, Clone, Copy, Structural)]
pub struct Dec(pub i128);

/// The sign of a number.
pub enum Sign {
    Positive,
    Negative,
}

/// A value that can be read as a decimal.
pub trait IntoDec {
    /// The raw value of the decimal that the value reads as, if it reads as one.
    spec fn dec_raw(self) -> Option<int>;

    /// The decimal that the value reads as.
    fn into_dec(self) -> (d: Dec)
        requires
            self.dec_raw() is Some,
        ensures
            Some(d@) == self.dec_raw(),
    ;
}

impl View for Dec {
    type V = int;

    open spec fn view(&self) -> int {
        self.0 as int
    }
}

/// The quotient of `a` by `b` rounded toward zero, for `b` other than zero.
pub open spec fn trunc_div(a: int, b: int) -> int {
    if a >= 0 && b > 0 {
        a / b
    } else if a < 0 && b < 0 {
        (-a) / (-b)
    } else if a < 0 {
        -((-a) / b)
    } else {
        -(a / (-b))
    }
}

/// Whether `raw` is a value that a `Dec` can hold.
pub open spec fn fits_dec(raw: int) -> bool {
    i128::MIN <= raw <= i128::MAX
}

/// How many characters of `s` are its sign: one for a leading `-` or `+`.
pub open spec fn sign_len(s: Seq<char>) -> int {
    if s.len() > 0 && (s[0] == '-' || s[0] == '+') {
        1
    } else {
        0
    }
}

/// What a run of fractional digits is worth in units of 10^-18. Digits after
/// the eighteenth are dropped, not rounded.
pub open spec fn fraction_value(f: Seq<char>) -> nat {
    let k = if f.len() < 18 {
        f.len() as int
    } else {
        18
    };
    digits_value(f.take(k)) * pow10((18 - k) as nat)
}

/// What unsigned decimal text is worth in units of 10^-18: one or more
/// digits, then optionally a point and one or more digits.
pub open spec fn magnitude_of_text(body: Seq<char>) -> Option<nat> {
    let n = digit_prefix_len(body) as int;
    let rest = body.skip(n);
    if n == 0 {
        None
    } else if rest.len() == 0 {
        Some(digits_value(body.take(n)) * pow10(18))
    } else if rest[0] == '.' && rest.len() >= 2 && all_digits(rest.skip(1)) {
        Some(digits_value(body.take(n)) * pow10(18) + fraction_value(rest.skip(1)))
    } else {
        None
    }
}

/// The raw value that decimal text denotes: an optional sign, then an
/// unsigned decimal; nothing where the text is malformed or the value does
/// not fit.
pub open spec fn dec_of_text(s: Seq<char>) -> Option<int> {
    match magnitude_of_text(s.skip(sign_len(s))) {
        Some(m) => {
            let raw = if s[0] == '-' {
                -(m as int)
            } else {
                m as int
            };
            if fits_dec(raw) {
                Some(raw)
            } else {
                None
            }
        },
        None => None,
    }
}

/// The digits of the fraction `f` of `width` digits, without the zeros at its end.
pub open spec fn fraction_text(f: nat, width: nat) -> Seq<char>
    decreases width,
{
    if width == 0 {
        Seq::empty()
    } else if f % 10 == 0 {
        fraction_text(f / 10, (width - 1) as nat)
    } else {
        fixed_text(f, width)
    }
}

/// The text of the raw value `raw`: a `-` for a negative value, the whole
/// part, and, unless the fraction is zero, a point and the fraction without
/// the zeros at its end.
pub open spec fn text_of_dec(raw: int) -> Seq<char> {
    let mag = (if raw < 0 {
        -raw
    } else {
        raw
    }) as nat;
    let sign = if raw < 0 {
        seq!['-']
    } else {
        Seq::<char>::empty()
    };
    let fraction = if mag % pow10(18) == 0 {
        Seq::<char>::empty()
    } else {
        seq!['.'] + fraction_text(mag % pow10(18), 18)
    };
    sign + decimal_text(mag / pow10(18)) + fraction
}

impl Dec {
    /// The sum of the raw values, or `Overflow`.
    pub open spec fn spec_add(self, rhs: Dec) -> Result<Dec, Error> {
        if fits_dec(self.0 + rhs.0) {
            Ok(Dec((self.0 + rhs.0) as i128))
        } else {
            Err(Error::Overflow)
        }
    }

    /// The difference of the raw values, or `Overflow`.
    pub open spec fn spec_sub(self, rhs: Dec) -> Result<Dec, Error> {
        if fits_dec(self.0 - rhs.0) {
            Ok(Dec((self.0 - rhs.0) as i128))
        } else {
            Err(Error::Overflow)
        }
    }

    /// The product of the raw values divided by 10^18 and rounded toward
    /// zero, or `Overflow` where the product of the raw values does not fit.
    pub open spec fn spec_mul(self, rhs: Dec) -> Result<Dec, Error> {
        if fits_dec(self.0 * rhs.0) {
            Ok(Dec(trunc_div(self.0 * rhs.0, DEC_ONE as int) as i128))
        } else {
            Err(Error::Overflow)
        }
    }

    /// The quotient of the raw values rounded toward zero, with no rescaling:
    /// `DivideByZero` for a zero divisor, `Overflow` where the quotient does
    /// not fit.
    pub open spec fn spec_div(self, rhs: Dec) -> Result<Dec, Error> {
        if rhs.0 == 0 {
            Err(Error::DivideByZero)
        } else if fits_dec(trunc_div(self.0 as int, rhs.0 as int)) {
            Ok(Dec(trunc_div(self.0 as int, rhs.0 as int) as i128))
        } else {
            Err(Error::Overflow)
        }
    }

    /// The decimal with the raw value `value`.
    pub fn new(value: i128) -> (r: Self)
        ensures
            r@ == value,
    {
        Dec(value)
    }

    /// The decimal 0.
    pub fn zero() -> (r: Self)
        ensures
            r@ == 0,
    {
        Dec(0)
    }

    /// The decimal 1.
    pub fn one() -> (r: Self)
        ensures
            r@ == pow10(18),
    {
        proof {
            lemma_pow10_38();
        }
        Dec(DEC_ONE)
    }

    /// The sign indicator: 1 for a negative value and -1 for any other.
    pub fn sign(&self) -> (r: i64)
        ensures
            r == (if self@ < 0 {
                1i64
            } else {
                -1i64
            }),
    {
        if self.0 < 0 {
            1
        } else {
            -1
        }
    }

    /// The number rounded down to a whole number.
    pub fn integer(&self) -> (r: i64)
        requires
            i64::MIN <= self@ / (DEC_ONE as int) <= i64::MAX,
        ensures
            r == self@ / (DEC_ONE as int),
    {
        let q: i128 = self.0 / DEC_ONE;
        let m: i128 = self.0 % DEC_ONE;
        let whole: i128 = if m < 0 {
            q - 1
        } else {
            q
        };
        i64::try_from(whole).unwrap()
    }

    /// The sum, which is exact, or `Overflow`.
    pub fn add(self, rhs: Dec) -> (r: Result<Dec, Error>)
        ensures
            r == self.spec_add(rhs),
    {
        match self.0.checked_add(rhs.0) {
            Some(x) => Ok(Dec(x)),
            None => Err(Error::Overflow),
        }
    }

    /// The difference, which is exact, or `Overflow`.
    pub fn sub(self, rhs: Dec) -> (r: Result<Dec, Error>)
        ensures
            r == self.spec_sub(rhs),
    {
        match self.0.checked_sub(rhs.0) {
            Some(x) => Ok(Dec(x)),
            None => Err(Error::Overflow),
        }
    }

    /// The product rounded toward zero, or `Overflow` where the product of the raw values does not fit.
    pub fn mul(self, rhs: Dec) -> (r: Result<Dec, Error>)
        ensures
            r == self.spec_mul(rhs),
    {
        match self.0.checked_mul(rhs.0) {
            Some(p) => Ok(Dec(p / DEC_ONE)),
            None => Err(Error::Overflow),
        }
    }

    /// The quotient of the raw values rounded toward zero, with no rescaling.
    pub fn div(self, rhs: Dec) -> (r: Result<Dec, Error>)
        ensures
            r == self.spec_div(rhs),
    {
        if rhs.0 == 0 {
            Err(Error::DivideByZero)
        } else {
            proof {
                let x = self.0 as int;
                let d = rhs.0 as int;
                assert(x * -1 == -x);
                assert(d * -1 == -d);
                if x == 0 {
                    assert(0int / d == 0 && 0int / (-d) == 0) by (nonlinear_arith)
                        requires
                            d != 0,
                    ;
                }
            }
            match self.0.checked_div(rhs.0) {
                Some(q) => Ok(Dec(q)),
                None => Err(Error::Overflow),
            }
        }
    }

    /// Reads a decimal from text: an optional sign, one or more digits, and
    /// optionally a point followed by one or more digits. Fractional digits
    /// after the eighteenth are dropped.
    pub fn from_str(s: &str) -> (r: Result<Dec, Error>)
        ensures
            match r {
                Ok(d) => dec_of_text(s@) == Some(d@),
                Err(e) => e == Error::Parse && dec_of_text(s@) is None,
            },
    {
        let v = chars_of(s);
        let n: usize = v.len();
        let negative = n > 0 && v[0] == '-';
        let start: usize = if n > 0 && (v[0] == '-' || v[0] == '+') {
            1
        } else {
            0
        };
        let end = digit_run_end(&v, start);
        let ghost body = v@.skip(start as int);
        let ghost rest = body.skip(end - start);
        proof {
            lemma_pow10_38();
            assert(body.take(end - start) =~= v@.subrange(start as int, end as int));
            assert(rest =~= v@.skip(end as int));
        }
        if end == start {
            return Err(Error::Parse);
        }
        let mut fraction: u128 = 0;
        if end < n {
            if v[end] != '.' || n - end < 2 {
                return Err(Error::Parse);
            }
            let from: usize = end + 1;
            let ghost f = rest.skip(1);
            assert(f =~= v@.skip(from as int));
            if !all_digits_from(&v, from) {
                return Err(Error::Parse);
            }
            let k: usize = if n - from < 18 {
                n - from
            } else {
                18
            };
            proof {
                assert(f.take(k as int) =~= v@.subrange(from as int, from + k));
                lemma_digits_value_bound(f.take(k as int));
                lemma_pow10_monotonic(k as nat, 18);
                lemma_pow10_monotonic((18 - k) as nat, 18);
            }
            let scale = pow10_of((18 - k) as u32);
            let x = parse_digits(&v, from, from + k).unwrap();
            assert(x * scale <= 1000000000000000000 * 1000000000000000000) by (nonlinear_arith)
                requires
                    x <= 1000000000000000000,
                    scale <= 1000000000000000000,
            ;
            fraction = x * scale;
        }
        let ghost whole = digits_value(body.take(end - start));
        assert(magnitude_of_text(body) == Some(whole * pow10(18) + fraction as nat));
        let magnitude = match parse_digits(&v, start, end) {
            Some(w) => match w.checked_mul(1_000_000_000_000_000_000u128) {
                Some(scaled) => scaled.checked_add(fraction),
                None => None,
            },
            None => {
                assert(whole * pow10(18) > u128::MAX) by (nonlinear_arith)
                    requires
                        whole > u128::MAX,
                        pow10(18) == 1000000000000000000,
                ;
                None
            },
        };
        match magnitude {
            Some(m) => {
                if negative {
                    if m > 0x8000_0000_0000_0000_0000_0000_0000_0000u128 {
                        Err(Error::Parse)
                    } else if m == 0x8000_0000_0000_0000_0000_0000_0000_0000u128 {
                        Ok(Dec(i128::MIN))
                    } else {
                        Ok(Dec(-(m as i128)))
                    }
                } else if m > 0x7fff_ffff_ffff_ffff_ffff_ffff_ffff_ffffu128 {
                    Err(Error::Parse)
                } else {
                    Ok(Dec(m as i128))
                }
            },
            None => Err(Error::Parse),
        }
    }

    /// Writes the decimal exactly: the whole part and, unless it is zero, the
    /// fraction without the zeros at its end.
    pub fn to_string(&self) -> (r: String)
        ensures
            r@ == text_of_dec(self@),
    {
        proof {
            lemma_pow10_38();
        }
        let mut out: Vec<char> = Vec::new();
        let magnitude: u128 = if self.0 == i128::MIN {
            0x8000_0000_0000_0000_0000_0000_0000_0000u128
        } else if self.0 < 0 {
            (-self.0) as u128
        } else {
            self.0 as u128
        };
        if self.0 < 0 {
            out.push('-');
        }
        let ghost sign = out@;
        push_decimal(magnitude / 1_000_000_000_000_000_000u128, &mut out);
        let fraction: u128 = magnitude % 1_000_000_000_000_000_000u128;
        if fraction != 0 {
            out.push('.');
            push_fraction(fraction, 18, &mut out);
        }
        assert(out@ =~= text_of_dec(self@));
        string_of(&out)
    }
}

/// Appends the digits of the fraction `f` of `width` digits to `out`, without
/// the zeros at its end.
fn push_fraction(f: u128, width: u32, out: &mut Vec<char>)
    ensures
        final(out)@ == old(out)@ + fraction_text(f as nat, width as nat),
    decreases width,
{
    if width == 0 {
        assert(final(out)@ =~= old(out)@ + fraction_text(f as nat, width as nat));
    } else if f % 10 == 0 {
        push_fraction(f / 10, width - 1, out);
    } else {
        push_fixed(f, width, out);
    }
}

/// The digits of a fraction denote it: with `n` digits written of `width`,
/// their value times ten to the `width - n` is the fraction.
pub proof fn lemma_fraction_text(f: nat, width: nat)
    requires
        0 < f < pow10(width),
    ensures
        1 <= fraction_text(f, width).len() <= width,
        all_digits(fraction_text(f, width)),
        digits_value(fraction_text(f, width)) * pow10(
            (width - fraction_text(f, width).len()) as nat,
        ) == f,
    decreases width,
{
    if width == 0 {
    } else if f % 10 == 0 {
        lemma_fraction_text(f / 10, (width - 1) as nat);
        let t = fraction_text(f / 10, (width - 1) as nat);
        let e = (width - 1 - t.len()) as nat;
        assert(pow10(e + 1) == 10 * pow10(e));
        assert(digits_value(t) * (10 * pow10(e)) == 10 * (digits_value(t) * pow10(e)))
            by (nonlinear_arith);
        assert((width - t.len()) as nat == e + 1);
        assert(digits_value(t) * pow10(e + 1) == f);
    } else {
        lemma_fixed_text(f, width);
        let t = fixed_text(f, width);
        assert(pow10(0) == 1);
        assert(digits_value(t) * 1 == f);
    }
}

/// Reading back what `to_string` wrote gives the same decimal: every raw
/// value is the value of its own text.
pub proof fn lemma_dec_text_round_trip(d: Dec)
    ensures
        dec_of_text(text_of_dec(d@)) == Some(d@),
{
    let raw = d@;
    let one = pow10(18);
    lemma_pow10_38();
    let mag = (if raw < 0 {
        -raw
    } else {
        raw
    }) as nat;
    let sign = if raw < 0 {
        seq!['-']
    } else {
        Seq::<char>::empty()
    };
    let whole = decimal_text(mag / one);
    let f = mag % one;
    let fraction = if f == 0 {
        Seq::<char>::empty()
    } else {
        seq!['.'] + fraction_text(f, 18)
    };
    let t = text_of_dec(raw);
    assert(t == sign + whole + fraction);
    lemma_decimal_text(mag / one);
    assert(is_digit(whole[0]));
    assert(t[0] == (sign + whole)[0]);
    let body = t.skip(sign_len(t));
    assert(body =~= whole + fraction);
    assert(t[0] == '-' <==> raw < 0);
    lemma_digit_prefix_len(whole, fraction);
    let n = whole.len() as int;
    assert(body.take(n) =~= whole);
    assert(body.skip(n) =~= fraction);
    if f != 0 {
        let ft = fraction_text(f, 18);
        lemma_fraction_text(f, 18);
        assert(fraction.skip(1) =~= ft);
        let k = ft.len() as int;
        assert(ft.take(k) =~= ft);
        assert(fraction_value(ft) == f);
    }
    assert(magnitude_of_text(body) == Some(mag));
}

impl From<usize> for Dec {
    fn from(value: usize) -> (r: Self) {
        Dec(value as i128 * DEC_ONE)
    }
}

impl FromSpecImpl<usize> for Dec {
    open spec fn obeys_from_spec() -> bool {
        true
    }

    open spec fn from_spec(value: usize) -> Self {
        Dec((value * DEC_ONE) as i128)
    }
}

impl From<u8> for Dec {
    fn from(value: u8) -> (r: Self) {
        Dec(value as i128 * DEC_ONE)
    }
}

impl FromSpecImpl<u8> for Dec {
    open spec fn obeys_from_spec() -> bool {
        true
    }

    open spec fn from_spec(value: u8) -> Self {
        Dec((value * DEC_ONE) as i128)
    }
}

impl From<u16> for Dec {
    fn from(value: u16) -> (r: Self) {
        Dec(value as i128 * DEC_ONE)
    }
}

impl FromSpecImpl<u16> for Dec {
    open spec fn obeys_from_spec() -> bool {
        true
    }

    open spec fn from_spec(value: u16) -> Self {
        Dec((value * DEC_ONE) as i128)
    }
}

impl From<u32> for Dec {
    fn from(value: u32) -> (r: Self) {
        Dec(value as i128 * DEC_ONE)
    }
}

impl FromSpecImpl<u32> for Dec {
    open spec fn obeys_from_spec() -> bool {
        true
    }

    open spec fn from_spec(value: u32) -> Self {
        Dec((value * DEC_ONE) as i128)
    }
}

impl From<isize> for Dec {
    fn from(value: isize) -> (r: Self) {
        Dec(value as i128 * DEC_ONE)
    }
}

impl FromSpecImpl<isize> for Dec {
    open spec fn obeys_from_spec() -> bool {
        true
    }

    open spec fn from_spec(value: isize) -> Self {
        Dec((value * DEC_ONE) as i128)
    }
}

impl From<i8> for Dec {
    fn from(value: i8) -> (r: Self) {
        Dec(value as i128 * DEC_ONE)
    }
}

impl FromSpecImpl<i8> for Dec {
    open spec fn obeys_from_spec() -> bool {
        true
    }

    open spec fn from_spec(value: i8) -> Self {
        Dec((value * DEC_ONE) as i128)
    }
}

impl From<i16> for Dec {
    fn from(value: i16) -> (r: Self) {
        Dec(value as i128 * DEC_ONE)
    }
}

impl FromSpecImpl<i16> for Dec {
    open spec fn obeys_from_spec() -> bool {
        true
    }

    open spec fn from_spec(value: i16) -> Self {
        Dec((value * DEC_ONE) as i128)
    }
}

impl From<i32> for Dec {
    fn from(value: i32) -> (r: Self) {
        Dec(value as i128 * DEC_ONE)
    }
}

impl FromSpecImpl<i32> for Dec {
    open spec fn obeys_from_spec() -> bool {
        true
    }

    open spec fn from_spec(value: i32) -> Self {
        Dec((value * DEC_ONE) as i128)
    }
}

impl IntoDec for usize {
    open spec fn dec_raw(self) -> Option<int> {
        Some(self * DEC_ONE)
    }

    fn into_dec(self) -> (d: Dec) {
        Dec(self as i128 * DEC_ONE)
    }
}

impl IntoDec for u8 {
    open spec fn dec_raw(self) -> Option<int> {
        Some(self * DEC_ONE)
    }

    fn into_dec(self) -> (d: Dec) {
        Dec(self as i128 * DEC_ONE)
    }
}

impl IntoDec for u16 {
    open spec fn dec_raw(self) -> Option<int> {
        Some(self * DEC_ONE)
    }

    fn into_dec(self) -> (d: Dec) {
        Dec(self as i128 * DEC_ONE)
    }
}

impl IntoDec for u32 {
    open spec fn dec_raw(self) -> Option<int> {
        Some(self * DEC_ONE)
    }

    fn into_dec(self) -> (d: Dec) {
        Dec(self as i128 * DEC_ONE)
    }
}

impl IntoDec for u64 {
    open spec fn dec_raw(self) -> Option<int> {
        Some(self * DEC_ONE)
    }

    fn into_dec(self) -> (d: Dec) {
        Dec(self as i128 * DEC_ONE)
    }
}

impl IntoDec for isize {
    open spec fn dec_raw(self) -> Option<int> {
        Some(self * DEC_ONE)
    }

    fn into_dec(self) -> (d: Dec) {
        Dec(self as i128 * DEC_ONE)
    }
}

impl IntoDec for i8 {
    open spec fn dec_raw(self) -> Option<int> {
        Some(self * DEC_ONE)
    }

    fn into_dec(self) -> (d: Dec) {
        Dec(self as i128 * DEC_ONE)
    }
}

impl IntoDec for i16 {
    open spec fn dec_raw(self) -> Option<int> {
        Some(self * DEC_ONE)
    }

    fn into_dec(self) -> (d: Dec) {
        Dec(self as i128 * DEC_ONE)
    }
}

impl IntoDec for i32 {
    open spec fn dec_raw(self) -> Option<int> {
        Some(self * DEC_ONE)
    }

    fn into_dec(self) -> (d: Dec) {
        Dec(self as i128 * DEC_ONE)
    }
}

impl IntoDec for i64 {
    open spec fn dec_raw(self) -> Option<int> {
        Some(self * DEC_ONE)
    }

    fn into_dec(self) -> (d: Dec) {
        Dec(self as i128 * DEC_ONE)
    }
}

impl IntoDec for &str {
    open spec fn dec_raw(self) -> Option<int> {
        dec_of_text(self@)
    }

    fn into_dec(self) -> (d: Dec) {
        Dec::from_str(self).unwrap()
    }
}

impl IntoDec for String {
    open spec fn dec_raw(self) -> Option<int> {
        dec_of_text(self@)
    }

    fn into_dec(self) -> (d: Dec) {
        Dec::from_str(self.as_str()).unwrap()
    }
}

} // verus!
