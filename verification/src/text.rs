//! Characters, digit runs and their values: the vocabulary that the textual
//! forms of amounts, decimals and coins are stated in.

use vstd::prelude::*;
use vstd::std_specs::iter::IteratorSpec;

verus! {

/// `c` is one of the ten ASCII digits.
pub open spec fn is_digit(c: char) -> bool {
    '0' <= c && c <= '9'
}

/// `c` is an ASCII letter of either case.
pub open spec fn is_letter(c: char) -> bool {
    ('a' <= c && c <= 'z') || ('A' <= c && c <= 'Z')
}

/// `c` has the Unicode property White_Space.
pub open spec fn is_whitespace(c: char) -> bool {
    let n = c as u32;
    (0x09 <= n && n <= 0x0D) || n == 0x20 || n == 0x85 || n == 0xA0 || n == 0x1680 || (0x2000 <= n
        && n <= 0x200A) || n == 0x2028 || n == 0x2029 || n == 0x202F || n == 0x205F || n == 0x3000
}

/// The number that a digit stands for.
pub open spec fn digit_value(c: char) -> nat {
    (c as u32 - '0' as u32) as nat
}

/// The digit that stands for `d`, for `d` below ten.
pub open spec fn digit_char(d: nat) -> char {
    (d + '0' as u32) as char
}

/// Every character of `s` is a digit.
pub open spec fn all_digits(s: Seq<char>) -> bool {
    forall|i: int| 0 <= i < s.len() ==> is_digit(#[trigger] s[i])
}

/// Every character of `s` is a letter.
pub open spec fn all_letters(s: Seq<char>) -> bool {
    forall|i: int| 0 <= i < s.len() ==> is_letter(#[trigger] s[i])
}

/// The number that a run of digits denotes in base ten; the empty run denotes 0.
pub open spec fn digits_value(s: Seq<char>) -> nat
    decreases s.len(),
{
    if s.len() == 0 {
        0
    } else {
        digits_value(s.drop_last()) * 10 + digit_value(s.last())
    }
}

/// Ten to the power `n`.
pub open spec fn pow10(n: nat) -> nat
    decreases n,
{
    if n == 0 {
        1
    } else {
        10 * pow10((n - 1) as nat)
    }
}

/// The shortest decimal numeral of `n`.
pub open spec fn decimal_text(n: nat) -> Seq<char>
    decreases n,
{
    if n < 10 {
        seq![digit_char(n)]
    } else {
        decimal_text(n / 10).push(digit_char(n % 10))
    }
}

/// The numeral of `n` in exactly `width` digits, zeros in front.
pub open spec fn fixed_text(n: nat, width: nat) -> Seq<char>
    decreases width,
{
    if width == 0 {
        Seq::empty()
    } else {
        fixed_text(n / 10, (width - 1) as nat).push(digit_char(n % 10))
    }
}

/// How many digits `s` begins with.
pub open spec fn digit_prefix_len(s: Seq<char>) -> nat
    decreases s.len(),
{
    if s.len() > 0 && is_digit(s[0]) {
        1 + digit_prefix_len(s.drop_first())
    } else {
        0
    }
}

/// `s` without the white space at its start.
pub open spec fn trim_start(s: Seq<char>) -> Seq<char>
    decreases s.len(),
{
    if s.len() > 0 && is_whitespace(s[0]) {
        trim_start(s.drop_first())
    } else {
        s
    }
}

/// `s` without the white space at its end.
pub open spec fn trim_end(s: Seq<char>) -> Seq<char>
    decreases s.len(),
{
    if s.len() > 0 && is_whitespace(s.last()) {
        trim_end(s.drop_last())
    } else {
        s
    }
}

/// `s` without the white space at either end.
pub open spec fn trim(s: Seq<char>) -> Seq<char> {
    trim_end(trim_start(s))
}

/// Whether `c` is a digit.
pub fn is_digit_char(c: char) -> (r: bool)
    ensures
        r == is_digit(c),
{
    '0' <= c && c <= '9'
}

/// Whether `c` is a letter.
pub fn is_letter_char(c: char) -> (r: bool)
    ensures
        r == is_letter(c),
{
    ('a' <= c && c <= 'z') || ('A' <= c && c <= 'Z')
}

/// Whether `c` is white space.
pub fn is_whitespace_char(c: char) -> (r: bool)
    ensures
        r == is_whitespace(c),
{
    let n: u32 = c as u32;
    (0x09 <= n && n <= 0x0D) || n == 0x20 || n == 0x85 || n == 0xA0 || n == 0x1680 || (0x2000 <= n
        && n <= 0x200A) || n == 0x2028 || n == 0x2029 || n == 0x202F || n == 0x205F || n == 0x3000
}

/// The value of the digit `c`.
pub fn digit_of(c: char) -> (d: u8)
    requires
        is_digit(c),
    ensures
        d as nat == digit_value(c),
        d <= 9,
{
    (c as u32 - '0' as u32) as u8
}

/// The digit for `d`.
pub fn char_of_digit(d: u8) -> (c: char)
    requires
        d <= 9,
    ensures
        c == digit_char(d as nat),
        is_digit(c),
        digit_value(c) == d,
{
    (d + 48u8) as char
}

/// `String::push` of std: the string afterwards is the string before with `c`
/// at its end.
#[verifier::external_body]
fn push_char(s: &mut String, c: char)
    ensures
        final(s)@ == old(s)@.push(c),
{
    s.push(c)
}

/// The string made of the characters of `v`, in order.
pub fn string_of(v: &Vec<char>) -> (s: String)
    ensures
        s@ == v@,
{
    let mut s = String::new();
    let mut i: usize = 0;
    while i < v.len()
        invariant
            i <= v@.len(),
            s@ == v@.take(i as int),
        decreases v@.len() - i,
    {
        push_char(&mut s, v[i]);
        assert(v@.take(i + 1) =~= v@.take(i as int).push(v@[i as int]));
        i += 1;
    }
    assert(v@.take(v@.len() as int) =~= v@);
    s
}

/// The characters of `s`, in order.
pub fn chars_of(s: &str) -> (v: Vec<char>)
    ensures
        v@ == s@,
{
    let mut v: Vec<char> = Vec::new();
    let mut it = s.chars();
    loop
        invariant
            v@ + it.remaining() == s@,
            it.decrease() is Some,
        decreases it.decrease()->0,
    {
        match it.next() {
            Some(c) => {
                v.push(c);
            },
            None => {
                return v;
            },
        }
    }
}

/// Appending a digit multiplies the value by ten and adds the digit.
pub proof fn lemma_digits_value_push(s: Seq<char>, c: char)
    ensures
        digits_value(s.push(c)) == digits_value(s) * 10 + digit_value(c),
{
    assert(s.push(c).drop_last() =~= s);
}

/// A run of digits is worth at least as much as any of its prefixes.
pub proof fn lemma_digits_value_prefix(s: Seq<char>, k: int)
    requires
        0 <= k <= s.len(),
    ensures
        digits_value(s.take(k)) <= digits_value(s),
    decreases s.len() - k,
{
    if k == s.len() {
        assert(s.take(k) =~= s);
    } else {
        assert(s.drop_last().take(k) =~= s.take(k));
        if k < s.len() - 1 {
            lemma_digits_value_prefix(s.drop_last(), k);
        } else {
            assert(s.drop_last().take(k) =~= s.drop_last());
        }
    }
}

/// A run of `n` digits is worth less than ten to the `n`.
pub proof fn lemma_digits_value_bound(s: Seq<char>)
    requires
        all_digits(s),
    ensures
        digits_value(s) < pow10(s.len()),
    decreases s.len(),
{
    if s.len() > 0 {
        lemma_digits_value_bound(s.drop_last());
        assert(is_digit(s.last()));
    }
}

/// The numeral of `n` is a non-empty run of digits that denotes `n`.
pub proof fn lemma_decimal_text(n: nat)
    ensures
        decimal_text(n).len() >= 1,
        all_digits(decimal_text(n)),
        digits_value(decimal_text(n)) == n,
    decreases n,
{
    if n < 10 {
        let t = decimal_text(n);
        assert(t.drop_last() =~= Seq::<char>::empty());
        assert(digits_value(t.drop_last()) == 0);
    } else {
        lemma_decimal_text(n / 10);
        lemma_digits_value_push(decimal_text(n / 10), digit_char(n % 10));
    }
}

/// The fixed-width numeral of `n` has `width` digits and denotes `n` where `n` fits.
pub proof fn lemma_fixed_text(n: nat, width: nat)
    ensures
        fixed_text(n, width).len() == width,
        all_digits(fixed_text(n, width)),
        n < pow10(width) ==> digits_value(fixed_text(n, width)) == n,
    decreases width,
{
    if width > 0 {
        lemma_fixed_text(n / 10, (width - 1) as nat);
        lemma_digits_value_push(fixed_text(n / 10, (width - 1) as nat), digit_char(n % 10));
    }
}

/// A run of digits followed by nothing, or by something that is no digit, is
/// the whole digit prefix.
pub proof fn lemma_digit_prefix_len(a: Seq<char>, b: Seq<char>)
    requires
        all_digits(a),
        b.len() == 0 || !is_digit(b[0]),
    ensures
        digit_prefix_len(a + b) == a.len(),
    decreases a.len(),
{
    if a.len() > 0 {
        assert(is_digit(a[0]));
        assert((a + b)[0] == a[0]);
        assert((a + b).drop_first() =~= a.drop_first() + b);
        lemma_digit_prefix_len(a.drop_first(), b);
    } else {
        assert(a + b =~= b);
    }
}

/// Trimming the start drops exactly the leading white space.
pub proof fn lemma_trim_start(s: Seq<char>, k: int)
    requires
        0 <= k <= s.len(),
        forall|i: int| 0 <= i < k ==> is_whitespace(#[trigger] s[i]),
        k == s.len() || !is_whitespace(s[k]),
    ensures
        trim_start(s) == s.skip(k),
    decreases k,
{
    if k == 0 {
        assert(s.skip(0) =~= s);
    } else {
        assert(is_whitespace(s[0]));
        let t = s.drop_first();
        assert forall|i: int| 0 <= i < k - 1 implies is_whitespace(#[trigger] t[i]) by {
            assert(t[i] == s[i + 1]);
        }
        lemma_trim_start(t, k - 1);
        assert(t.skip(k - 1) =~= s.skip(k));
    }
}

/// Trimming the end drops exactly the trailing white space.
pub proof fn lemma_trim_end(s: Seq<char>, k: int)
    requires
        0 <= k <= s.len(),
        forall|i: int| k <= i < s.len() ==> is_whitespace(#[trigger] s[i]),
        k == 0 || !is_whitespace(s[k - 1]),
    ensures
        trim_end(s) == s.take(k),
    decreases s.len() - k,
{
    if k == s.len() {
        assert(s.take(k) =~= s);
    } else {
        assert(is_whitespace(s.last()));
        let t = s.drop_last();
        lemma_trim_end(t, k);
        assert(t.take(k) =~= s.take(k));
    }
}

/// Ten to the power `n`, for the powers that fit.
pub fn pow10_of(n: u32) -> (p: u128)
    requires
        n <= 38,
    ensures
        p == pow10(n as nat),
{
    let mut p: u128 = 1;
    let mut i: u32 = 0;
    proof {
        lemma_pow10_38();
    }
    while i < n
        invariant
            i <= n <= 38,
            p == pow10(i as nat),
            p <= pow10(38),
        decreases n - i,
    {
        proof {
            lemma_pow10_monotonic((i + 1) as nat, 38);
            lemma_pow10_38();
        }
        p = p * 10;
        i += 1;
    }
    p
}

/// Ten to the 38 fits 128 bits.
pub proof fn lemma_pow10_38()
    ensures
        pow10(38) == 100000000000000000000000000000000000000,
        pow10(18) == 1000000000000000000,
{
    reveal_with_fuel(pow10, 40);
}

/// Ten to the power grows with the power.
pub proof fn lemma_pow10_monotonic(a: nat, b: nat)
    requires
        a <= b,
    ensures
        pow10(a) <= pow10(b),
        pow10(a) >= 1,
    decreases b,
{
    if a < b {
        lemma_pow10_monotonic(a, (b - 1) as nat);
    } else if a > 0 {
        lemma_pow10_monotonic((a - 1) as nat, (b - 1) as nat);
    }
}

/// The number that the digits of `v` between `lo` and `hi` denote, if it fits.
pub fn parse_digits(v: &Vec<char>, lo: usize, hi: usize) -> (r: Option<u128>)
    requires
        lo <= hi <= v@.len(),
        all_digits(v@.subrange(lo as int, hi as int)),
    ensures
        match r {
            Some(x) => x == digits_value(v@.subrange(lo as int, hi as int)),
            None => digits_value(v@.subrange(lo as int, hi as int)) > u128::MAX,
        },
{
    let ghost run = v@.subrange(lo as int, hi as int);
    let mut acc: u128 = 0;
    let mut i: usize = lo;
    assert(run.take(0) =~= Seq::<char>::empty());
    while i < hi
        invariant
            lo <= i <= hi <= v@.len(),
            run == v@.subrange(lo as int, hi as int),
            all_digits(run),
            acc == digits_value(run.take(i - lo)),
        decreases hi - i,
    {
        let c = v[i];
        proof {
            assert(run[i - lo] == c);
            assert(is_digit(run[i - lo]));
            assert(run.take(i - lo + 1) =~= run.take(i - lo).push(c));
            lemma_digits_value_push(run.take(i - lo), c);
            lemma_digits_value_prefix(run, i - lo + 1);
        }
        let d: u8 = digit_of(c);
        let next = match acc.checked_mul(10) {
            Some(m) => m.checked_add(d as u128),
            None => None,
        };
        match next {
            Some(x) => {
                acc = x;
            },
            None => {
                return None;
            },
        }
        i += 1;
    }
    assert(run.take(hi - lo) =~= run);
    Some(acc)
}

/// Appends the shortest numeral of `n` to `out`.
pub fn push_decimal(n: u128, out: &mut Vec<char>)
    ensures
        final(out)@ == old(out)@ + decimal_text(n as nat),
    decreases n,
{
    if n >= 10 {
        push_decimal(n / 10, out);
    }
    let c = char_of_digit((n % 10) as u8);
    out.push(c);
    proof {
        if n >= 10 {
            assert(final(out)@ =~= old(out)@ + decimal_text(n as nat));
        } else {
            assert(final(out)@ =~= old(out)@ + decimal_text(n as nat));
        }
    }
}

/// Appends the numeral of `n` in exactly `width` digits to `out`.
pub fn push_fixed(n: u128, width: u32, out: &mut Vec<char>)
    ensures
        final(out)@ == old(out)@ + fixed_text(n as nat, width as nat),
    decreases width,
{
    if width > 0 {
        push_fixed(n / 10, width - 1, out);
        let c = char_of_digit((n % 10) as u8);
        out.push(c);
        assert(final(out)@ =~= old(out)@ + fixed_text(n as nat, width as nat));
    } else {
        assert(final(out)@ =~= old(out)@ + fixed_text(n as nat, width as nat));
    }
}

/// Where the run of digits that begins at `start` ends.
pub fn digit_run_end(v: &Vec<char>, start: usize) -> (end: usize)
    requires
        start <= v@.len(),
    ensures
        start <= end <= v@.len(),
        end - start == digit_prefix_len(v@.skip(start as int)),
        all_digits(v@.subrange(start as int, end as int)),
        end < v@.len() ==> !is_digit(v@[end as int]),
{
    let n: usize = v.len();
    let mut end: usize = start;
    while end < n && is_digit_char(v[end])
        invariant
            start <= end <= n == v@.len(),
            forall|j: int| start <= j < end ==> is_digit(#[trigger] v@[j]),
        decreases n - end,
    {
        end += 1;
    }
    proof {
        let a = v@.subrange(start as int, end as int);
        let b = v@.skip(end as int);
        assert forall|j: int| 0 <= j < a.len() implies is_digit(#[trigger] a[j]) by {
            assert(a[j] == v@[start + j]);
        }
        assert(a + b =~= v@.skip(start as int));
        lemma_digit_prefix_len(a, b);
    }
    end
}

/// Whether everything from `lo` on is a digit.
pub fn all_digits_from(v: &Vec<char>, lo: usize) -> (r: bool)
    requires
        lo <= v@.len(),
    ensures
        r == all_digits(v@.skip(lo as int)),
{
    let end = digit_run_end(v, lo);
    proof {
        let t = v@.skip(lo as int);
        if end == v@.len() {
            assert(t =~= v@.subrange(lo as int, end as int));
        } else {
            assert(t[end - lo] == v@[end as int]);
        }
    }
    end == v.len()
}

/// Whether everything from `lo` on is a letter.
pub fn all_letters_from(v: &Vec<char>, lo: usize) -> (r: bool)
    requires
        lo <= v@.len(),
    ensures
        r == all_letters(v@.skip(lo as int)),
{
    let n: usize = v.len();
    let ghost t = v@.skip(lo as int);
    let mut i: usize = lo;
    while i < n
        invariant
            lo <= i <= n == v@.len(),
            t == v@.skip(lo as int),
            forall|j: int| 0 <= j < i - lo ==> is_letter(#[trigger] t[j]),
        decreases n - i,
    {
        if !is_letter_char(v[i]) {
            assert(!is_letter(t[i - lo]));
            return false;
        }
        i += 1;
    }
    true
}

/// Where the text of `v` without the white space at its ends begins and ends.
pub fn trim_bounds(v: &Vec<char>) -> (r: (usize, usize))
    ensures
        r.0 <= r.1 <= v@.len(),
        v@.subrange(r.0 as int, r.1 as int) == trim(v@),
{
    let n: usize = v.len();
    let mut lo: usize = 0;
    while lo < n && is_whitespace_char(v[lo])
        invariant
            lo <= n == v@.len(),
            forall|i: int| 0 <= i < lo ==> is_whitespace(#[trigger] v@[i]),
        decreases n - lo,
    {
        lo += 1;
    }
    let mut hi: usize = n;
    while hi > lo && is_whitespace_char(v[hi - 1])
        invariant
            lo <= hi <= n == v@.len(),
            forall|i: int| hi <= i < n ==> is_whitespace(#[trigger] v@[i]),
        decreases hi,
    {
        hi -= 1;
    }
    proof {
        lemma_trim_start(v@, lo as int);
        let t = v@.skip(lo as int);
        assert forall|i: int| hi - lo <= i < t.len() implies is_whitespace(#[trigger] t[i]) by {
            assert(t[i] == v@[i + lo]);
        }
        lemma_trim_end(t, hi - lo);
        assert(t.take(hi - lo) =~= v@.subrange(lo as int, hi as int));
    }
    (lo, hi)
}

} // verus!
