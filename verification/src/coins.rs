//! A ledger of coins: at most one amount for each denomination.

use crate::coin::{coin_of_text, parse_coin_between, Coin, CoinView};
use crate::error::Error;
use crate::text::chars_of;
use crate::uint128::Uint128;
use vstd::prelude::*;
use vstd::std_specs::cmp::PartialEqSpecImpl;

verus! {

/// No two coins of `s` share a denomination.
pub open spec fn distinct_denoms(s: Seq<Coin>) -> bool {
    forall|i: int, j: int| 0 <= i < j < s.len() ==> (#[trigger] s[i]).denom@ != (#[trigger] s[j]).denom@
}

/// The ledger that a list of coins amounts to: each denomination with the
/// amount of the last coin that names it.
pub open spec fn ledger_of(s: Seq<Coin>) -> Map<Seq<char>, nat>
    decreases s.len(),
{
    if s.len() == 0 {
        Map::empty()
    } else {
        ledger_of(s.drop_last()).insert(s.last().denom@, s.last().amount@)
    }
}

/// The denomination `d` is that of some coin of `s`.
pub open spec fn names(s: Seq<Coin>, d: Seq<char>) -> bool {
    exists|i: int| 0 <= i < s.len() && (#[trigger] s[i]).denom@ == d
}

/// A ledger holds exactly the denominations of its coins, each with the
/// amount of its coin.
pub proof fn lemma_ledger_entries(s: Seq<Coin>)
    requires
        distinct_denoms(s),
    ensures
        forall|i: int|
            0 <= i < s.len() ==> ledger_of(s).contains_key((#[trigger] s[i]).denom@) && ledger_of(
                s,
            )[s[i].denom@] == s[i].amount@,
        forall|d: Seq<char>| #[trigger] ledger_of(s).contains_key(d) ==> names(s, d),
        ledger_of(s).dom().finite(),
        ledger_of(s).dom().len() == s.len(),
    decreases s.len(),
{
    if s.len() > 0 {
        let t = s.drop_last();
        assert forall|i: int, j: int| 0 <= i < j < t.len() implies (#[trigger] t[i]).denom@ != (
        #[trigger] t[j]).denom@ by {
            assert(t[i] == s[i] && t[j] == s[j]);
        }
        lemma_ledger_entries(t);
        let last = s.last();
        assert forall|i: int| 0 <= i < s.len() implies ledger_of(s).contains_key(
            (#[trigger] s[i]).denom@,
        ) && ledger_of(s)[s[i].denom@] == s[i].amount@ by {
            if i < s.len() - 1 {
                assert(t[i] == s[i]);
                assert(s[i].denom@ != s[s.len() - 1].denom@);
            }
        }
        assert forall|d: Seq<char>| #[trigger] ledger_of(s).contains_key(d) implies names(s, d) by {
            if d == last.denom@ {
                assert(s[s.len() - 1].denom@ == d);
            } else {
                assert(names(t, d));
                let i = choose|i: int| 0 <= i < t.len() && (#[trigger] t[i]).denom@ == d;
                assert(s[i].denom@ == d);
            }
        }
        if ledger_of(t).contains_key(last.denom@) {
            assert(names(t, last.denom@));
            let i = choose|i: int| 0 <= i < t.len() && (#[trigger] t[i]).denom@ == last.denom@;
            assert(s[i].denom@ == s[s.len() - 1].denom@);
        }
    }
}

/// A map that holds exactly the denominations of a list of distinct coins,
/// each with its coin's amount, is the ledger of the list.
pub proof fn lemma_ledger_unique(s: Seq<Coin>, m: Map<Seq<char>, nat>)
    requires
        distinct_denoms(s),
        forall|i: int|
            0 <= i < s.len() ==> m.contains_key((#[trigger] s[i]).denom@) && m[s[i].denom@]
                == s[i].amount@,
        forall|d: Seq<char>| #[trigger] m.contains_key(d) ==> names(s, d),
    ensures
        m == ledger_of(s),
{
    lemma_ledger_entries(s);
    let l = ledger_of(s);
    assert forall|d: Seq<char>| m.contains_key(d) == l.contains_key(d) by {
        if m.contains_key(d) {
            let i = choose|i: int| 0 <= i < s.len() && (#[trigger] s[i]).denom@ == d;
            assert(l.contains_key(s[i].denom@));
        }
        if l.contains_key(d) {
            let i = choose|i: int| 0 <= i < s.len() && (#[trigger] s[i]).denom@ == d;
            assert(m.contains_key(s[i].denom@));
        }
    }
    assert forall|d: Seq<char>| m.contains_key(d) implies m[d] == l[d] by {
        let i = choose|i: int| 0 <= i < s.len() && (#[trigger] s[i]).denom@ == d;
        assert(m[s[i].denom@] == s[i].amount@);
        assert(l[s[i].denom@] == s[i].amount@);
    }
    assert(m =~= l);
}

/// Replacing a coin by one of the same denomination replaces its amount in
/// the ledger.
pub proof fn lemma_ledger_update(s: Seq<Coin>, i: int, c: Coin)
    requires
        distinct_denoms(s),
        0 <= i < s.len(),
        c.denom@ == s[i].denom@,
    ensures
        distinct_denoms(s.update(i, c)),
        ledger_of(s.update(i, c)) == ledger_of(s).insert(c.denom@, c.amount@),
{
    let t = s.update(i, c);
    let m = ledger_of(s).insert(c.denom@, c.amount@);
    lemma_ledger_entries(s);
    assert forall|a: int, b: int| 0 <= a < b < t.len() implies (#[trigger] t[a]).denom@ != (
    #[trigger] t[b]).denom@ by {
        assert(t[a].denom@ == s[a].denom@ && t[b].denom@ == s[b].denom@);
    }
    assert forall|k: int| 0 <= k < t.len() implies m.contains_key((#[trigger] t[k]).denom@)
        && m[t[k].denom@] == t[k].amount@ by {
        if k != i {
            assert(t[k] == s[k]);
            if k < i {
                assert(s[k].denom@ != s[i].denom@);
            } else {
                assert(s[i].denom@ != s[k].denom@);
            }
        }
    }
    assert forall|d: Seq<char>| #[trigger] m.contains_key(d) implies names(t, d) by {
        if d == c.denom@ {
            assert(t[i].denom@ == d);
        } else {
            assert(names(s, d));
            let k = choose|k: int| 0 <= k < s.len() && (#[trigger] s[k]).denom@ == d;
            assert(t[k].denom@ == d);
        }
    }
    lemma_ledger_unique(t, m);
}

/// Taking a coin out of the list takes its denomination out of the ledger.
pub proof fn lemma_ledger_remove(s: Seq<Coin>, i: int)
    requires
        distinct_denoms(s),
        0 <= i < s.len(),
    ensures
        distinct_denoms(s.remove(i)),
        ledger_of(s.remove(i)) == ledger_of(s).remove(s[i].denom@),
{
    let t = s.remove(i);
    let m = ledger_of(s).remove(s[i].denom@);
    lemma_ledger_entries(s);
    assert forall|a: int, b: int| 0 <= a < b < t.len() implies (#[trigger] t[a]).denom@ != (
    #[trigger] t[b]).denom@ by {
        let a0 = if a < i {
            a
        } else {
            a + 1
        };
        let b0 = if b < i {
            b
        } else {
            b + 1
        };
        assert(t[a] == s[a0] && t[b] == s[b0]);
    }
    assert forall|k: int| 0 <= k < t.len() implies m.contains_key((#[trigger] t[k]).denom@)
        && m[t[k].denom@] == t[k].amount@ by {
        let k0 = if k < i {
            k
        } else {
            k + 1
        };
        assert(t[k] == s[k0]);
        if k0 < i {
            assert(s[k0].denom@ != s[i].denom@);
        } else {
            assert(s[i].denom@ != s[k0].denom@);
        }
    }
    assert forall|d: Seq<char>| #[trigger] m.contains_key(d) implies names(t, d) by {
        assert(names(s, d));
        let k = choose|k: int| 0 <= k < s.len() && (#[trigger] s[k]).denom@ == d;
        let k1 = if k < i {
            k
        } else {
            k - 1
        };
        assert(t[k1] == s[k]);
    }
    lemma_ledger_unique(t, m);
}

/// Adding a coin of a new denomination to the list adds it to the ledger.
pub proof fn lemma_ledger_push(s: Seq<Coin>, c: Coin)
    requires
        distinct_denoms(s),
        !names(s, c.denom@),
    ensures
        distinct_denoms(s.push(c)),
        ledger_of(s.push(c)) == ledger_of(s).insert(c.denom@, c.amount@),
{
    let t = s.push(c);
    assert(t.drop_last() =~= s);
    assert forall|a: int, b: int| 0 <= a < b < t.len() implies (#[trigger] t[a]).denom@ != (
    #[trigger] t[b]).denom@ by {
        assert(t[a] == s[a]);
        if b == s.len() {
            assert(s[a].denom@ != c.denom@);
        } else {
            assert(t[b] == s[b]);
        }
    }
}

/// Lists whose coins agree in denomination and amount, place by place,
/// amount to the same ledger.
pub proof fn lemma_ledger_congruent(s: Seq<Coin>, t: Seq<Coin>)
    requires
        s.len() == t.len(),
        forall|i: int| 0 <= i < s.len() ==> (#[trigger] s[i])@ == t[i]@,
    ensures
        ledger_of(s) == ledger_of(t),
        distinct_denoms(s) == distinct_denoms(t),
    decreases s.len(),
{
    if s.len() > 0 {
        assert(s.last()@ == t[t.len() - 1]@);
        assert forall|i: int| 0 <= i < s.drop_last().len() implies (#[trigger] s.drop_last()[i])@
            == t.drop_last()[i]@ by {
            assert(s[i]@ == t[i]@);
        }
        lemma_ledger_congruent(s.drop_last(), t.drop_last());
    }
    if distinct_denoms(s) {
        assert forall|i: int, j: int| 0 <= i < j < t.len() implies (#[trigger] t[i]).denom@ != (
        #[trigger] t[j]).denom@ by {
            assert(s[i]@ == t[i]@ && s[j]@ == t[j]@);
        }
    }
    if distinct_denoms(t) {
        assert forall|i: int, j: int| 0 <= i < j < s.len() implies (#[trigger] s[i]).denom@ != (
        #[trigger] s[j]).denom@ by {
            assert(s[i]@ == t[i]@ && s[j]@ == t[j]@);
        }
    }
}

/// What two amounts of one denomination come to: their sum, or the first
/// less the second.
pub open spec fn merged_amount(x: nat, y: nat, subtract: bool) -> int {
    if subtract {
        x - y
    } else {
        (x + y) as int
    }
}

/// Every denomination that both ledgers hold comes to an amount that is not
/// negative and fits 128 bits.
pub open spec fn merge_fits(a: Map<Seq<char>, nat>, b: Map<Seq<char>, nat>, subtract: bool) -> bool {
    forall|d: Seq<char>|
        a.contains_key(d) && #[trigger] b.contains_key(d) ==> 0 <= merged_amount(
            a[d],
            b[d],
            subtract,
        ) <= u128::MAX
}

/// Two ledgers put together: a denomination that both hold has the merged
/// amount, and one that only one of them holds has its amount there.
pub open spec fn merged(a: Map<Seq<char>, nat>, b: Map<Seq<char>, nat>, subtract: bool) -> Map<
    Seq<char>,
    nat,
> {
    Map::new(
        |d: Seq<char>| a.contains_key(d) || b.contains_key(d),
        |d: Seq<char>|
            if a.contains_key(d) && b.contains_key(d) {
                merged_amount(a[d], b[d], subtract) as nat
            } else if a.contains_key(d) {
                a[d]
            } else {
                b[d]
            },
    )
}

/// The sum of two ledgers: amounts of a shared denomination are added, and
/// the others are taken over.
pub open spec fn ledger_sum(a: Map<Seq<char>, nat>, b: Map<Seq<char>, nat>) -> Map<Seq<char>, nat> {
    merged(a, b, false)
}

/// The difference of two ledgers: for a shared denomination the second
/// amount is taken from the first; a denomination that only the second holds
/// is taken over with its amount as it is.
pub open spec fn ledger_difference(a: Map<Seq<char>, nat>, b: Map<Seq<char>, nat>) -> Map<
    Seq<char>,
    nat,
> {
    merged(a, b, true)
}

/// The three ways to apply a bare amount to every entry of a ledger.
#[derive(Clone, Copy, PartialEq, Eq, Structural)]
pub enum Scaling {
    Times,
    DividedBy,
    Modulo,
}

/// What an amount becomes under a scaling, or why it fails.
pub open spec fn scaled_amount(x: nat, k: Uint128, how: Scaling) -> Result<Uint128, Error> {
    match how {
        Scaling::Times => Uint128(x as u128).spec_mul(k),
        Scaling::DividedBy => Uint128(x as u128).spec_div(k),
        Scaling::Modulo => Uint128(x as u128).spec_rem(k),
    }
}

/// Every amount of the ledger can be scaled.
pub open spec fn scaling_fits(a: Map<Seq<char>, nat>, k: Uint128, how: Scaling) -> bool {
    forall|d: Seq<char>| #[trigger] a.contains_key(d) ==> scaled_amount(a[d], k, how) is Ok
}

/// The ledger with every amount scaled.
pub open spec fn scaled(a: Map<Seq<char>, nat>, k: Uint128, how: Scaling) -> Map<Seq<char>, nat> {
    Map::new(|d: Seq<char>| a.contains_key(d), |d: Seq<char>| scaled_amount(a[d], k, how)->Ok_0@)
}

/// The error that a scaling fails with.
pub open spec fn scaling_error(how: Scaling) -> Error {
    match how {
        Scaling::Times => Error::Overflow,
        _ => Error::DivideByZero,
    }
}

/// Merging with a ledger that has one more denomination adds that
/// denomination to the result.
proof fn lemma_merge_step(
    a: Map<Seq<char>, nat>,
    b: Map<Seq<char>, nat>,
    d: Seq<char>,
    x: nat,
    subtract: bool,
)
    requires
        !b.contains_key(d),
    ensures
        merged(a, b.insert(d, x), subtract) == merged(a, b, subtract).insert(
            d,
            if a.contains_key(d) {
                merged_amount(a[d], x, subtract) as nat
            } else {
                x
            },
        ),
        merge_fits(a, b.insert(d, x), subtract) == (merge_fits(a, b, subtract) && (a.contains_key(d)
            ==> 0 <= merged_amount(a[d], x, subtract) <= u128::MAX)),
{
    let b2 = b.insert(d, x);
    assert(merged(a, b2, subtract) =~= merged(a, b, subtract).insert(
        d,
        if a.contains_key(d) {
            merged_amount(a[d], x, subtract) as nat
        } else {
            x
        },
    ));
    if merge_fits(a, b2, subtract) {
        assert forall|e: Seq<char>| a.contains_key(e) && #[trigger] b.contains_key(e) implies 0
            <= merged_amount(a[e], b[e], subtract) <= u128::MAX by {
            assert(b2.contains_key(e));
        }
        assert(b2.contains_key(d));
    }
    if merge_fits(a, b, subtract) && (a.contains_key(d) ==> 0 <= merged_amount(a[d], x, subtract)
        <= u128::MAX) {
        assert forall|e: Seq<char>| a.contains_key(e) && #[trigger] b2.contains_key(e) implies 0
            <= merged_amount(a[e], b2[e], subtract) <= u128::MAX by {
            if e != d {
                assert(b.contains_key(e));
            }
        }
    }
}

/// Copies a list of coins.
fn copy_coins(v: &Vec<Coin>) -> (r: Vec<Coin>)
    ensures
        r@.len() == v@.len(),
        forall|i: int| 0 <= i < v@.len() ==> (#[trigger] r@[i])@ == v@[i]@,
        ledger_of(r@) == ledger_of(v@),
        distinct_denoms(r@) == distinct_denoms(v@),
{
    let mut r: Vec<Coin> = Vec::new();
    let mut i: usize = 0;
    while i < v.len()
        invariant
            i <= v@.len(),
            r@.len() == i,
            forall|k: int| 0 <= k < i ==> (#[trigger] r@[k])@ == v@[k]@,
        decreases v@.len() - i,
    {
        r.push(v[i].clone());
        i += 1;
    }
    proof {
        lemma_ledger_congruent(r@, v@);
    }
    r
}

/// Merges the coins of `b` into those of `a`, one denomination at a time.
fn merge(a: &Vec<Coin>, b: &Vec<Coin>, subtract: bool) -> (r: Result<Vec<Coin>, Error>)
    requires
        distinct_denoms(a@),
        distinct_denoms(b@),
    ensures
        match r {
            Ok(v) => distinct_denoms(v@) && merge_fits(ledger_of(a@), ledger_of(b@), subtract)
                && ledger_of(v@) == merged(ledger_of(a@), ledger_of(b@), subtract),
            Err(e) => !merge_fits(ledger_of(a@), ledger_of(b@), subtract) && e == (if subtract {
                Error::Underflow
            } else {
                Error::Overflow
            }),
        },
{
    let ghost la = ledger_of(a@);
    let mut out = copy_coins(a);
    let mut j: usize = 0;
    assert(b@.take(0) =~= Seq::<Coin>::empty());
    assert(merged(la, ledger_of(b@.take(0)), subtract) =~= la);
    while j < b.len()
        invariant
            j <= b@.len(),
            la == ledger_of(a@),
            distinct_denoms(b@),
            distinct_denoms(out@),
            merge_fits(la, ledger_of(b@.take(j as int)), subtract),
            ledger_of(out@) == merged(la, ledger_of(b@.take(j as int)), subtract),
        decreases b@.len() - j,
    {
        let coin = &b[j];
        let ghost done = b@.take(j as int);
        let ghost d = coin.denom@;
        proof {
            assert(b@.take(j + 1).drop_last() =~= done);
            assert(b@.take(j + 1).last() == b@[j as int]);
            assert forall|x: int, y: int| 0 <= x < y < done.len() implies (#[trigger] done[x]).denom@
                != (#[trigger] done[y]).denom@ by {
                assert(done[x] == b@[x] && done[y] == b@[y]);
            }
            lemma_ledger_entries(done);
            if ledger_of(done).contains_key(d) {
                assert(names(done, d));
                let k = choose|k: int| 0 <= k < done.len() && (#[trigger] done[k]).denom@ == d;
                assert(b@[k].denom@ == b@[j as int].denom@);
            }
            lemma_merge_step(la, ledger_of(done), d, coin.amount@, subtract);
            lemma_ledger_entries(out@);
            lemma_ledger_entries(b@);
        }
        match position(&out, &coin.denom) {
            Some(i) => {
                assert(ledger_of(out@).contains_key(out@[i as int].denom@));
                assert(la.contains_key(d));
                assert(ledger_of(out@)[d] == la[d]);
                let merged_amount = if subtract {
                    out[i].amount.sub(coin.amount)
                } else {
                    out[i].amount.add(coin.amount)
                };
                match merged_amount {
                    Ok(amount) => {
                        let next = Coin { denom: coin.denom.clone(), amount };
                        proof {
                            lemma_ledger_update(out@, i as int, next);
                        }
                        out.set(i, next);
                    },
                    Err(e) => {
                        proof {
                            assert(ledger_of(b@).contains_key(b@[j as int].denom@));
                            assert(ledger_of(b@)[d] == coin.amount@);
                        }
                        return Err(e);
                    },
                }
            },
            None => {
                let next = coin.clone();
                proof {
                    if la.contains_key(d) {
                        assert(ledger_of(out@).contains_key(d));
                        assert(names(out@, d));
                    }
                    lemma_ledger_push(out@, next);
                }
                out.push(next);
            },
        }
        j += 1;
    }
    assert(b@.take(b@.len() as int) =~= b@);
    Ok(out)
}

/// Scales the amount of every coin of `a`.
fn scale(a: &Vec<Coin>, k: Uint128, how: Scaling) -> (r: Result<Vec<Coin>, Error>)
    requires
        distinct_denoms(a@),
    ensures
        match r {
            Ok(v) => distinct_denoms(v@) && scaling_fits(ledger_of(a@), k, how) && ledger_of(v@)
                == scaled(ledger_of(a@), k, how),
            Err(e) => !scaling_fits(ledger_of(a@), k, how) && e == scaling_error(how),
        },
{
    let mut out: Vec<Coin> = Vec::new();
    let mut i: usize = 0;
    proof {
        lemma_ledger_entries(a@);
    }
    while i < a.len()
        invariant
            i <= a@.len(),
            out@.len() == i,
            forall|j: int|
                0 <= j < i ==> (#[trigger] out@[j]).denom@ == a@[j].denom@ && scaled_amount(
                    a@[j].amount@,
                    k,
                    how,
                ) == Ok::<Uint128, Error>(out@[j].amount),
            forall|j: int|
                0 <= j < a@.len() ==> ledger_of(a@).contains_key((#[trigger] a@[j]).denom@)
                    && ledger_of(a@)[a@[j].denom@] == a@[j].amount@,
        decreases a@.len() - i,
    {
        let coin = &a[i];
        let result = match how {
            Scaling::Times => coin.amount.mul(k),
            Scaling::DividedBy => coin.amount.div(k),
            Scaling::Modulo => coin.amount.rem(k),
        };
        match result {
            Ok(amount) => {
                out.push(Coin { denom: coin.denom.clone(), amount });
            },
            Err(e) => {
                assert(ledger_of(a@).contains_key(a@[i as int].denom@));
                return Err(e);
            },
        }
        i += 1;
    }
    proof {
        let la = ledger_of(a@);
        let m = scaled(la, k, how);
        assert forall|x: int, y: int| 0 <= x < y < out@.len() implies (#[trigger] out@[x]).denom@
            != (#[trigger] out@[y]).denom@ by {
            assert(a@[x].denom@ != a@[y].denom@);
        }
        assert forall|d: Seq<char>| #[trigger] la.contains_key(d) implies scaled_amount(
            la[d],
            k,
            how,
        ) is Ok by {
            assert(names(a@, d));
            let j = choose|j: int| 0 <= j < a@.len() && (#[trigger] a@[j]).denom@ == d;
            assert(out@[j].denom@ == d);
        }
        assert forall|j: int| 0 <= j < out@.len() implies m.contains_key((#[trigger] out@[j]).denom@)
            && m[out@[j].denom@] == out@[j].amount@ by {
            assert(la.contains_key(a@[j].denom@));
        }
        assert forall|d: Seq<char>| #[trigger] m.contains_key(d) implies names(out@, d) by {
            assert(names(a@, d));
            let j = choose|j: int| 0 <= j < a@.len() && (#[trigger] a@[j]).denom@ == d;
            assert(out@[j].denom@ == d);
        }
        lemma_ledger_unique(out@, m);
    }
    Ok(out)
}

/// Where the coin named `denom` stands in `v`, if any does.
fn position(v: &Vec<Coin>, denom: &String) -> (r: Option<usize>)
    ensures
        match r {
            Some(i) => i < v@.len() && v@[i as int].denom@ == denom@,
            None => !names(v@, denom@),
        },
{
    let mut i: usize = 0;
    while i < v.len()
        invariant
            i <= v@.len(),
            forall|k: int| 0 <= k < i ==> (#[trigger] v@[k]).denom@ != denom@,
        decreases v@.len() - i,
    {
        if v[i].denom == *denom {
            return Some(i);
        }
        i += 1;
    }
    None
}

/// The list with the amount of the coin at `i` replaced by `x`.
pub open spec fn with_amount_at(s: Seq<Coin>, i: int, x: Uint128) -> Seq<Coin> {
    s.update(i, Coin { denom: s[i].denom, amount: x })
}

/// The amount of the coin at `i`, to be changed in place.
fn amount_mut(v: &mut Vec<Coin>, i: usize) -> (r: &mut Uint128)
    requires
        i < old(v)@.len(),
        distinct_denoms(old(v)@),
    ensures
        *r == old(v)@[i as int].amount,
        final(v)@ == with_amount_at(old(v)@, i as int, *final(r)),
        distinct_denoms(final(v)@),
        ledger_of(final(v)@) == ledger_of(old(v)@).insert(
            old(v)@[i as int].denom@,
            (*final(r))@,
        ),
{
    proof {
        assert forall|x: Uint128|
            distinct_denoms(#[trigger] with_amount_at(v@, i as int, x)) && ledger_of(
                with_amount_at(v@, i as int, x),
            ) == ledger_of(v@).insert(v@[i as int].denom@, x@) by {
            lemma_ledger_update(v@, i as int, Coin { denom: v@[i as int].denom, amount: x });
        }
    }
    &mut v[i].amount
}

/// Puts `coin` in the place of the coin of its denomination, or at the end.
fn upsert(v: &mut Vec<Coin>, coin: Coin)
    requires
        distinct_denoms(old(v)@),
    ensures
        distinct_denoms(final(v)@),
        ledger_of(final(v)@) == ledger_of(old(v)@).insert(coin.denom@, coin.amount@),
{
    match position(v, &coin.denom) {
        Some(i) => {
            proof {
                lemma_ledger_update(v@, i as int, coin);
            }
            v.set(i, coin);
        },
        None => {
            proof {
                lemma_ledger_push(v@, coin);
            }
            v.push(coin);
        },
    }
}

/// A ledger: for each denomination it holds, one amount. Its model is the
/// map from denominations to amounts.
#[derive(Debug)]
pub struct Coins {
    coins: Vec<Coin>,
}

impl View for Coins {
    type V = Map<Seq<char>, nat>;

    closed spec fn view(&self) -> Map<Seq<char>, nat> {
        ledger_of(self.coins@)
    }
}

impl Coins {
    /// The ledger is well formed: no two of its coins share a denomination.
    pub closed spec fn wf(&self) -> bool {
        distinct_denoms(self.coins@)
    }

    /// The coins of the ledger, in the order in which `iter` hands them out.
    pub closed spec fn entries(&self) -> Seq<Coin> {
        self.coins@
    }

    /// A well-formed ledger is the ledger of its coins, no two of which share
    /// a denomination; it is finite and every amount in it fits 128 bits.
    pub proof fn lemma_entries(&self)
        requires
            self.wf(),
        ensures
            distinct_denoms(self.entries()),
            self@ == ledger_of(self.entries()),
            self@.dom().finite(),
            self@.dom().len() == self.entries().len(),
            forall|d: Seq<char>| #[trigger] self@.contains_key(d) ==> self@[d] <= u128::MAX,
    {
        lemma_ledger_entries(self.coins@);
        assert forall|d: Seq<char>| #[trigger] self@.contains_key(d) implies self@[d]
            <= u128::MAX by {
            assert(names(self.coins@, d));
            let i = choose|i: int| 0 <= i < self.coins@.len() && (#[trigger] self.coins@[i]).denom@
                == d;
            assert(self@[self.coins@[i].denom@] == self.coins@[i].amount@);
        }
    }

    /// The empty ledger.
    pub fn new() -> (r: Self)
        ensures
            r.wf(),
            r@ == Map::<Seq<char>, nat>::empty(),
    {
        Coins { coins: Vec::new() }
    }

    /// Puts `coin` under its own denomination, in place of any amount there.
    pub fn insert_coin(&mut self, coin: Coin)
        requires
            old(self).wf(),
        ensures
            final(self).wf(),
            final(self)@ == old(self)@.insert(coin.denom@, coin.amount@),
    {
        proof {
        }
        upsert(&mut self.coins, coin);
    }

    /// The coin of the denomination `denom`, if the ledger holds one.
    pub fn get(&self, denom: &str) -> (r: Option<&Coin>)
        requires
            self.wf(),
        ensures
            match r {
                Some(c) => self@.contains_key(denom@) && c@ == (CoinView {
                    denom: denom@,
                    amount: self@[denom@],
                }),
                None => !self@.contains_key(denom@),
            },
    {
        proof {
            lemma_ledger_entries(self.coins@);
        }
        let key = denom.to_owned();
        match position(&self.coins, &key) {
            Some(i) => Some(&self.coins[i]),
            None => None,
        }
    }

    /// The amount held of the denomination `denom`, to be changed in place,
    /// if the ledger holds one.
    pub fn get_mut(&mut self, denom: &str) -> (r: Option<&mut Uint128>)
        requires
            old(self).wf(),
        ensures
            final(self).wf(),
            match r {
                Some(amount) => old(self)@.contains_key(denom@) && (*amount)@ == old(self)@[denom@]
                    && final(self)@ == old(self)@.insert(denom@, (*final(amount))@),
                None => !old(self)@.contains_key(denom@) && final(self)@ == old(self)@,
            },
    {
        proof {
            lemma_ledger_entries(self.coins@);
        }
        let key = denom.to_owned();
        match position(&self.coins, &key) {
            Some(i) => Some(amount_mut(&mut self.coins, i)),
            None => None,
        }
    }

    /// Puts `coin` under `denom`, which must be its denomination, in place of
    /// any amount there.
    pub fn set(&mut self, denom: &str, coin: Coin)
        requires
            old(self).wf(),
            denom@ == coin.denom@,
        ensures
            final(self).wf(),
            final(self)@ == old(self)@.insert(denom@, coin.amount@),
    {
        proof {
        }
        upsert(&mut self.coins, coin);
    }

    /// Takes the denomination `denom` out of the ledger.
    pub fn remove_denom(&mut self, denom: &str)
        requires
            old(self).wf(),
        ensures
            final(self).wf(),
            final(self)@ == old(self)@.remove(denom@),
    {
        proof {
            lemma_ledger_entries(self.coins@);
        }
        let key = denom.to_owned();
        match position(&self.coins, &key) {
            Some(i) => {
                proof {
                    lemma_ledger_remove(self.coins@, i as int);
                }
                self.coins.remove(i);
            },
            None => {
                assert(old(self)@.remove(denom@) =~= old(self)@);
            },
        }
    }

    /// Whether the ledger holds no denomination.
    pub fn is_empty(&self) -> (r: bool)
        requires
            self.wf(),
        ensures
            r == (self@.len() == 0),
            r == (self@ == Map::<Seq<char>, nat>::empty()),
            self@.dom().finite(),
    {
        proof {
            lemma_ledger_entries(self.coins@);
        }
        assert(self.coins@.len() == 0 ==> self@ =~= Map::<Seq<char>, nat>::empty());
        self.coins.len() == 0
    }

    /// How many denominations the ledger holds.
    pub fn len(&self) -> (r: usize)
        requires
            self.wf(),
        ensures
            r == self@.len(),
            self@.dom().finite(),
    {
        proof {
            lemma_ledger_entries(self.coins@);
        }
        self.coins.len()
    }

    /// The coins of the ledger, one for each denomination, in no order that
    /// a caller may rely on.
    pub fn iter(&self) -> (r: &Vec<Coin>)
        requires
            self.wf(),
        ensures
            r@ == self.entries(),
    {
        &self.coins
    }

    /// Whether the ledger holds the denomination `denom`.
    pub fn has_denom(&self, denom: &str) -> (r: bool)
        requires
            self.wf(),
        ensures
            r == self@.contains_key(denom@),
    {
        proof {
            lemma_ledger_entries(self.coins@);
        }
        let key = denom.to_owned();
        position(&self.coins, &key).is_some()
    }

    /// The ledger that a list of coins amounts to; of two coins of one
    /// denomination the later one counts.
    pub fn from_coins(list: Vec<Coin>) -> (r: Self)
        ensures
            r.wf(),
            r@ == ledger_of(list@),
    {
        let mut out: Vec<Coin> = Vec::new();
        let mut i: usize = 0;
        assert(list@.take(0) =~= Seq::<Coin>::empty());
        while i < list.len()
            invariant
                i <= list@.len(),
                distinct_denoms(out@),
                ledger_of(out@) == ledger_of(list@.take(i as int)),
            decreases list@.len() - i,
        {
            let coin = list[i].clone();
            proof {
                assert(list@.take(i + 1).drop_last() =~= list@.take(i as int));
                assert(list@.take(i + 1).last() == list@[i as int]);
            }
            upsert(&mut out, coin);
            i += 1;
        }
        assert(list@.take(list@.len() as int) =~= list@);
        Coins { coins: out }
    }

    /// Decides whether the ledger is well formed.
    pub fn is_well_formed(&self) -> (r: bool)
        ensures
            r == self.wf(),
    {
        let n: usize = self.coins.len();
        let mut i: usize = 0;
        while i < n
            invariant
                i <= n == self.coins@.len(),
                forall|a: int, b: int|
                    0 <= a < b < n && a < i ==> (#[trigger] self.coins@[a]).denom@ != (
                    #[trigger] self.coins@[b]).denom@,
            decreases n - i,
        {
            let mut j: usize = i + 1;
            while j < n
                invariant
                    i < j <= n == self.coins@.len(),
                    forall|b: int|
                        i < b < j ==> self.coins@[i as int].denom@ != (
                        #[trigger] self.coins@[b]).denom@,
                decreases n - j,
            {
                if self.coins[i].denom == self.coins[j].denom {
                    return false;
                }
                j += 1;
            }
            i += 1;
        }
        true
    }

    /// Whether two ledgers hold the same amounts of the same denominations.
    pub fn same_as(&self, other: &Coins) -> (r: bool)
        requires
            self.wf(),
            other.wf(),
        ensures
            r == (self@ == other@),
    {
        proof {
            lemma_ledger_entries(self.coins@);
            lemma_ledger_entries(other.coins@);
        }
        if self.coins.len() != other.coins.len() {
            return false;
        }
        let mut i: usize = 0;
        while i < self.coins.len()
            invariant
                i <= self.coins@.len(),
                self.wf(),
                other.wf(),
                self@.dom().finite(),
                other@.dom().finite(),
                self@.dom().len() == other@.dom().len(),
                forall|k: int|
                    0 <= k < i ==> other@.contains_key((#[trigger] self.coins@[k]).denom@)
                        && other@[self.coins@[k].denom@] == self.coins@[k].amount@,
            decreases self.coins@.len() - i,
        {
            proof {
                lemma_ledger_entries(self.coins@);
                lemma_ledger_entries(other.coins@);
            }
            match position(&other.coins, &self.coins[i].denom) {
                Some(p) => {
                    if other.coins[p].amount.0 != self.coins[i].amount.0 {
                        assert(self@[self.coins@[i as int].denom@] != other@[other.coins@[p as int].denom@]);
                        return false;
                    }
                },
                None => {
                    assert(self@.contains_key(self.coins@[i as int].denom@));
                    return false;
                },
            }
            i += 1;
        }
        proof {
            lemma_ledger_entries(self.coins@);
            assert forall|d: Seq<char>| self@.contains_key(d) implies #[trigger] other@.contains_key(d)
                && other@[d] == self@[d] by {
                assert(names(self.coins@, d));
                let k = choose|k: int| 0 <= k < self.coins@.len() && (#[trigger] self.coins@[k]).denom@
                    == d;
                assert(other@.contains_key(self.coins@[k].denom@));
            }
            assert(self@.dom().subset_of(other@.dom()));
            vstd::set_lib::lemma_subset_equality(self@.dom(), other@.dom());
            assert(self@ =~= other@);
        }
        true
    }

    /// Reads a ledger from coins separated by commas, such as
    /// `1000000uluna,2000000uusd`. Of two coins of one denomination the
    /// later one counts.
    pub fn parse(s: &str) -> (r: Result<Self, Error>)
        ensures
            match r {
                Ok(c) => c.wf() && ledger_of_text(s@) == Some(c@),
                Err(e) => e == Error::Parse && ledger_of_text(s@) is None,
            },
    {
        let v = chars_of(s);
        let n: usize = v.len();
        let mut out: Vec<Coin> = Vec::new();
        let mut start: usize = 0;
        let ghost mut done: Seq<Seq<char>> = Seq::empty();
        assert(v@.skip(0) =~= v@);
        assert(done + pieces(v@.skip(0)) =~= pieces(v@));
        loop
            invariant
                start <= n == v@.len(),
                v@ == s@,
                distinct_denoms(out@),
                pieces(v@) == done + pieces(v@.skip(start as int)),
                forall|i: int| 0 <= i < done.len() ==> coin_of_text(#[trigger] done[i]) is Some,
                ledger_of(out@) == ledger_of_pieces(done),
            decreases n - start,
        {
            let end = comma_from(&v, start);
            let ghost rest = v@.skip(start as int);
            let ghost piece = v@.subrange(start as int, end as int);
            proof {
                assert(rest.take(end - start) =~= piece);
            }
            match parse_coin_between(&v, start, end) {
                Ok(coin) => {
                    proof {
                        assert(done.push(piece).drop_last() =~= done);
                    }
                    upsert(&mut out, coin);
                    proof {
                        done = done.push(piece);
                    }
                },
                Err(e) => {
                    proof {
                        let all = pieces(v@);
                        assert(all[done.len() as int] == pieces(rest)[0]);
                        assert(pieces(rest)[0] == piece);
                        assert(coin_of_text(all[done.len() as int]) is None);
                    }
                    return Err(e);
                },
            }
            if end == n {
                proof {
                    assert(pieces(rest) =~= seq![piece]);
                    assert(pieces(v@) =~= done);
                }
                return Ok(Coins { coins: out });
            }
            proof {
                assert(rest.skip(end - start + 1) =~= v@.skip(end + 1));
                assert(pieces(rest) =~= seq![piece] + pieces(v@.skip(end + 1)));
                assert(pieces(v@) =~= done + pieces(v@.skip(end + 1)));
            }
            start = end + 1;
        }
    }

    /// The sum of two ledgers, or `Overflow` where an amount does not fit.
    pub fn add(&self, rhs: &Coins) -> (r: Result<Coins, Error>)
        requires
            self.wf(),
            rhs.wf(),
        ensures
            match r {
                Ok(c) => c.wf() && merge_fits(self@, rhs@, false) && c@ == ledger_sum(self@, rhs@),
                Err(e) => e == Error::Overflow && !merge_fits(self@, rhs@, false),
            },
    {
        match merge(&self.coins, &rhs.coins, false) {
            Ok(coins) => Ok(Coins { coins }),
            Err(e) => Err(e),
        }
    }

    /// The difference of two ledgers, or `Underflow` where an amount of
    /// `rhs` is larger than the amount it is taken from. A denomination that
    /// only `rhs` holds is taken over as it is.
    pub fn sub(&self, rhs: &Coins) -> (r: Result<Coins, Error>)
        requires
            self.wf(),
            rhs.wf(),
        ensures
            match r {
                Ok(c) => c.wf() && merge_fits(self@, rhs@, true) && c@ == ledger_difference(
                    self@,
                    rhs@,
                ),
                Err(e) => e == Error::Underflow && !merge_fits(self@, rhs@, true),
            },
    {
        match merge(&self.coins, &rhs.coins, true) {
            Ok(coins) => Ok(Coins { coins }),
            Err(e) => Err(e),
        }
    }

    /// The ledger with `coin` added to the amount of its denomination, or
    /// put in where the ledger has none.
    pub fn add_coin(&self, coin: &Coin) -> (r: Result<Coins, Error>)
        requires
            self.wf(),
        ensures
            match r {
                Ok(c) => c.wf() && c@ == self@.insert(
                    coin.denom@,
                    if self@.contains_key(coin.denom@) {
                        self@[coin.denom@] + coin.amount@
                    } else {
                        coin.amount@
                    },
                ) && (self@.contains_key(coin.denom@) ==> self@[coin.denom@] + coin.amount@
                    <= u128::MAX),
                Err(e) => e == Error::Overflow && self@.contains_key(coin.denom@)
                    && self@[coin.denom@] + coin.amount@ > u128::MAX,
            },
    {
        let mut one: Vec<Coin> = Vec::new();
        one.push(coin.clone());
        proof {
            let single = Map::<Seq<char>, nat>::empty();
            assert(one@.drop_last() =~= Seq::<Coin>::empty());
            assert(ledger_of(one@.drop_last()) == single);
            assert(one@.last()@ == coin@);
            assert(ledger_of(one@) == single.insert(coin.denom@, coin.amount@));
            lemma_merge_step(self@, single, coin.denom@, coin.amount@, false);
            assert(merged(self@, single, false) =~= self@);
        }
        match merge(&self.coins, &one, false) {
            Ok(coins) => Ok(Coins { coins }),
            Err(e) => Err(e),
        }
    }

    /// The ledger with `coin` taken from the amount of its denomination, or
    /// put in as it is where the ledger has none.
    pub fn sub_coin(&self, coin: &Coin) -> (r: Result<Coins, Error>)
        requires
            self.wf(),
        ensures
            match r {
                Ok(c) => c.wf() && c@ == self@.insert(
                    coin.denom@,
                    if self@.contains_key(coin.denom@) {
                        (self@[coin.denom@] - coin.amount@) as nat
                    } else {
                        coin.amount@
                    },
                ) && (self@.contains_key(coin.denom@) ==> self@[coin.denom@] >= coin.amount@),
                Err(e) => e == Error::Underflow && self@.contains_key(coin.denom@)
                    && self@[coin.denom@] < coin.amount@,
            },
    {
        let mut one: Vec<Coin> = Vec::new();
        one.push(coin.clone());
        proof {
            let single = Map::<Seq<char>, nat>::empty();
            assert(one@.drop_last() =~= Seq::<Coin>::empty());
            assert(ledger_of(one@.drop_last()) == single);
            assert(one@.last()@ == coin@);
            assert(ledger_of(one@) == single.insert(coin.denom@, coin.amount@));
            lemma_merge_step(self@, single, coin.denom@, coin.amount@, true);
            assert(merged(self@, single, true) =~= self@);
            lemma_ledger_entries(self.coins@);
        }
        match merge(&self.coins, &one, true) {
            Ok(coins) => Ok(Coins { coins }),
            Err(e) => Err(e),
        }
    }

    /// Every amount multiplied by `rhs`, or `Overflow` where one does not fit.
    pub fn mul(&self, rhs: Uint128) -> (r: Result<Coins, Error>)
        requires
            self.wf(),
        ensures
            match r {
                Ok(c) => c.wf() && scaling_fits(self@, rhs, Scaling::Times) && c@ == scaled(
                    self@,
                    rhs,
                    Scaling::Times,
                ),
                Err(e) => e == Error::Overflow && !scaling_fits(self@, rhs, Scaling::Times),
            },
    {
        match scale(&self.coins, rhs, Scaling::Times) {
            Ok(coins) => Ok(Coins { coins }),
            Err(e) => Err(e),
        }
    }

    /// Every amount divided by `rhs` and rounded down, or `DivideByZero`
    /// where `rhs` is zero and the ledger holds an amount.
    pub fn div(&self, rhs: Uint128) -> (r: Result<Coins, Error>)
        requires
            self.wf(),
        ensures
            match r {
                Ok(c) => c.wf() && scaling_fits(self@, rhs, Scaling::DividedBy) && c@ == scaled(
                    self@,
                    rhs,
                    Scaling::DividedBy,
                ),
                Err(e) => e == Error::DivideByZero && !scaling_fits(self@, rhs, Scaling::DividedBy),
            },
    {
        match scale(&self.coins, rhs, Scaling::DividedBy) {
            Ok(coins) => Ok(Coins { coins }),
            Err(e) => Err(e),
        }
    }

    /// Every amount replaced by its remainder by `rhs`, or `DivideByZero`
    /// where `rhs` is zero and the ledger holds an amount.
    pub fn rem(&self, rhs: Uint128) -> (r: Result<Coins, Error>)
        requires
            self.wf(),
        ensures
            match r {
                Ok(c) => c.wf() && scaling_fits(self@, rhs, Scaling::Modulo) && c@ == scaled(
                    self@,
                    rhs,
                    Scaling::Modulo,
                ),
                Err(e) => e == Error::DivideByZero && !scaling_fits(self@, rhs, Scaling::Modulo),
            },
    {
        match scale(&self.coins, rhs, Scaling::Modulo) {
            Ok(coins) => Ok(Coins { coins }),
            Err(e) => Err(e),
        }
    }

    /// The coins of the ledger as a list, one for each denomination.
    pub fn into_iter(self) -> (r: Vec<Coin>)
        requires
            self.wf(),
        ensures
            r@ == self.entries(),
    {
        self.coins
    }

    /// Reads a ledger as `parse` does, and gives the empty ledger for text
    /// that `parse` rejects.
    pub fn from_text(s: &str) -> (r: Self)
        ensures
            r.wf(),
            r@ == (match ledger_of_text(s@) {
                Some(m) => m,
                None => Map::empty(),
            }),
    {
        match Coins::parse(s) {
            Ok(c) => c,
            Err(_) => Coins::new(),
        }
    }

    /// Reads a ledger; the same as `parse`.
    pub fn from_str(s: &str) -> (r: Result<Self, Error>)
        ensures
            match r {
                Ok(c) => c.wf() && ledger_of_text(s@) == Some(c@),
                Err(e) => e == Error::Parse && ledger_of_text(s@) is None,
            },
    {
        Coins::parse(s)
    }

    /// The ledger of the coins for which `f` returns true.
    pub fn filter<F: Fn(&Coin) -> bool>(&self, f: F) -> (r: Coins)
        requires
            self.wf(),
            forall|c: &Coin| #[trigger] f.requires((c,)),
        ensures
            r.wf(),
            forall|d: Seq<char>| #[trigger] r@.contains_key(d) ==> self@.contains_key(d) && r@[d] == self@[d],
            forall|i: int|
                0 <= i < self.entries().len() ==> {
                    let c = #[trigger] self.entries()[i];
                    if r@.contains_key(c.denom@) {
                        f.ensures((&c,), true)
                    } else {
                        f.ensures((&c,), false)
                    }
                },
    {
        let mut out: Vec<Coin> = Vec::new();
        let mut i: usize = 0;
        while i < self.coins.len()
            invariant
                i <= self.coins@.len(),
                self.wf(),
                forall|c: &Coin| #[trigger] f.requires((c,)),
                distinct_denoms(out@),
                forall|k: int| 0 <= k < out@.len() ==> came_from(self.coins@, i as int, #[trigger] out@[k]),
                forall|j: int|
                    0 <= j < i ==> if names(out@, (#[trigger] self.coins@[j]).denom@) {
                        f.ensures((&self.coins@[j],), true)
                    } else {
                        f.ensures((&self.coins@[j],), false)
                    },
            decreases self.coins@.len() - i,
        {
            let coin = &self.coins[i];
            let ghost before = out@;
            proof {
                if names(before, coin.denom@) {
                    let k = choose|k: int| 0 <= k < before.len() && (#[trigger] before[k]).denom@
                        == coin.denom@;
                    assert(came_from(self.coins@, i as int, before[k]));
                    let j = choose|j: int| 0 <= j < i && (#[trigger] self.coins@[j])@ == before[k]@;
                    assert(self.coins@[j].denom@ != self.coins@[i as int].denom@);
                }
            }
            if f(coin) {
                let kept = coin.clone();
                proof {
                    lemma_ledger_push(before, kept);
                }
                out.push(kept);
                proof {
                    assert forall|k: int| 0 <= k < out@.len() implies came_from(
                        self.coins@,
                        i + 1,
                        #[trigger] out@[k],
                    ) by {
                        if k < before.len() {
                            assert(came_from(self.coins@, i as int, before[k]));
                            let j = choose|j: int| 0 <= j < i && (#[trigger] self.coins@[j])@
                                == before[k]@;
                            assert(self.coins@[j]@ == out@[k]@);
                        } else {
                            assert(self.coins@[i as int]@ == out@[k]@);
                        }
                    }
                    assert forall|j: int| 0 <= j < i + 1 implies if names(
                        out@,
                        (#[trigger] self.coins@[j]).denom@,
                    ) {
                        f.ensures((&self.coins@[j],), true)
                    } else {
                        f.ensures((&self.coins@[j],), false)
                    } by {
                        let d = self.coins@[j].denom@;
                        if j < i {
                            assert(self.coins@[j].denom@ != self.coins@[i as int].denom@);
                            if names(out@, d) {
                                let k = choose|k: int| 0 <= k < out@.len() && (#[trigger] out@[k]).denom@
                                    == d;
                                assert(before[k].denom@ == d);
                            }
                            if names(before, d) {
                                let k = choose|k: int| 0 <= k < before.len() && (
                                #[trigger] before[k]).denom@ == d;
                                assert(out@[k].denom@ == d);
                            }
                        } else {
                            assert(out@[before.len() as int].denom@ == d);
                        }
                    }
                }
            } else {
                proof {
                    assert forall|k: int| 0 <= k < out@.len() implies came_from(
                        self.coins@,
                        i + 1,
                        #[trigger] out@[k],
                    ) by {
                        assert(came_from(self.coins@, i as int, out@[k]));
                        let j = choose|j: int| 0 <= j < i && (#[trigger] self.coins@[j])@ == out@[k]@;
                        assert(self.coins@[j]@ == out@[k]@);
                    }
                }
            }
            i += 1;
        }
        proof {
            lemma_ledger_entries(out@);
            lemma_ledger_entries(self.coins@);
            assert forall|d: Seq<char>| #[trigger] ledger_of(out@).contains_key(d) implies self@.contains_key(
                d,
            ) && ledger_of(out@)[d] == self@[d] by {
                assert(names(out@, d));
                let k = choose|k: int| 0 <= k < out@.len() && (#[trigger] out@[k]).denom@ == d;
                assert(came_from(self.coins@, self.coins@.len() as int, out@[k]));
                let j = choose|j: int|
                    0 <= j < self.coins@.len() && (#[trigger] self.coins@[j])@ == out@[k]@;
                assert(self@.contains_key(self.coins@[j].denom@));
                assert(ledger_of(out@).contains_key(out@[k].denom@));
            }
            assert forall|j: int| 0 <= j < self.coins@.len() implies {
                let c = #[trigger] self.coins@[j];
                if ledger_of(out@).contains_key(c.denom@) {
                    f.ensures((&c,), true)
                } else {
                    f.ensures((&c,), false)
                }
            } by {
                let c = self.coins@[j];
                if names(out@, c.denom@) {
                    let k = choose|k: int| 0 <= k < out@.len() && (#[trigger] out@[k]).denom@ == c.denom@;
                    assert(ledger_of(out@).contains_key(out@[k].denom@));
                }
            }
        }
        Coins { coins: out }
    }

    /// Adds a ledger in place. On failure the ledger is left as it was.
    pub fn add_assign(&mut self, rhs: &Coins) -> (r: Result<(), Error>)
        requires
            old(self).wf(),
            rhs.wf(),
        ensures
            final(self).wf(),
            match r {
                Ok(_) => final(self)@ == ledger_sum(old(self)@, rhs@),
                Err(e) => e == Error::Overflow && !merge_fits(old(self)@, rhs@, false) && *final(self) == *old(self),
            },
    {
        match self.add(rhs) {
            Ok(c) => {
                *self = c;
                Ok(())
            },
            Err(e) => Err(e),
        }
    }

    /// Takes a ledger away in place. On failure the ledger is left as it was.
    pub fn sub_assign(&mut self, rhs: &Coins) -> (r: Result<(), Error>)
        requires
            old(self).wf(),
            rhs.wf(),
        ensures
            final(self).wf(),
            match r {
                Ok(_) => final(self)@ == ledger_difference(old(self)@, rhs@),
                Err(e) => e == Error::Underflow && !merge_fits(old(self)@, rhs@, true) && *final(self) == *old(self),
            },
    {
        match self.sub(rhs) {
            Ok(c) => {
                *self = c;
                Ok(())
            },
            Err(e) => Err(e),
        }
    }

    /// Multiplies every amount in place. On failure the ledger is left as it was.
    pub fn mul_assign(&mut self, rhs: Uint128) -> (r: Result<(), Error>)
        requires
            old(self).wf(),
        ensures
            final(self).wf(),
            match r {
                Ok(_) => final(self)@ == scaled(old(self)@, rhs, Scaling::Times),
                Err(e) => e == Error::Overflow && !scaling_fits(old(self)@, rhs, Scaling::Times) && *final(self) == *old(self),
            },
    {
        match self.mul(rhs) {
            Ok(c) => {
                *self = c;
                Ok(())
            },
            Err(e) => Err(e),
        }
    }

    /// Divides every amount in place. On failure the ledger is left as it was.
    pub fn div_assign(&mut self, rhs: Uint128) -> (r: Result<(), Error>)
        requires
            old(self).wf(),
        ensures
            final(self).wf(),
            match r {
                Ok(_) => final(self)@ == scaled(old(self)@, rhs, Scaling::DividedBy),
                Err(e) => e == Error::DivideByZero && !scaling_fits(old(self)@, rhs, Scaling::DividedBy) && *final(self) == *old(self),
            },
    {
        match self.div(rhs) {
            Ok(c) => {
                *self = c;
                Ok(())
            },
            Err(e) => Err(e),
        }
    }

    /// Replaces every amount by its remainder in place. On failure the ledger is left as it was.
    pub fn rem_assign(&mut self, rhs: Uint128) -> (r: Result<(), Error>)
        requires
            old(self).wf(),
        ensures
            final(self).wf(),
            match r {
                Ok(_) => final(self)@ == scaled(old(self)@, rhs, Scaling::Modulo),
                Err(e) => e == Error::DivideByZero && !scaling_fits(old(self)@, rhs, Scaling::Modulo) && *final(self) == *old(self),
            },
    {
        match self.rem(rhs) {
            Ok(c) => {
                *self = c;
                Ok(())
            },
            Err(e) => Err(e),
        }
    }
}

impl Clone for Coins {
    fn clone(&self) -> (r: Self)
        ensures
            r@ == self@,
            self.wf() ==> r.wf(),
    {
        Coins { coins: copy_coins(&self.coins) }
    }
}

impl PartialEq for Coins {
    fn eq(&self, other: &Self) -> (r: bool) {
        self.is_well_formed() && other.is_well_formed() && self.same_as(other)
    }
}

impl Eq for Coins {

}

impl PartialEqSpecImpl for Coins {
    open spec fn obeys_eq_spec() -> bool {
        true
    }

    open spec fn eq_spec(&self, other: &Self) -> bool {
        self.wf() && other.wf() && self@ == other@
    }
}

impl Default for Coins {
    fn default() -> (r: Self)
        ensures
            r.wf(),
            r@ == Map::<Seq<char>, nat>::empty(),
    {
        Coins::new()
    }
}

/// The coin `c` agrees with one of the first `upto` coins of `src`.
pub open spec fn came_from(src: Seq<Coin>, upto: int, c: Coin) -> bool {
    exists|j: int| 0 <= j < upto && (#[trigger] src[j])@ == c@
}

/// Where the first comma at or after `start` stands, or the length of `v`.
fn comma_from(v: &Vec<char>, start: usize) -> (end: usize)
    requires
        start <= v@.len(),
    ensures
        start <= end <= v@.len(),
        end - start == first_comma(v@.skip(start as int)),
        end < v@.len() ==> v@[end as int] == ',',
{
    let mut end: usize = start;
    while end < v.len() && v[end] != ','
        invariant
            start <= end <= v@.len(),
            forall|k: int| start <= k < end ==> v@[k] != ',',
        decreases v@.len() - end,
    {
        end += 1;
    }
    proof {
        lemma_first_comma(v@.skip(start as int), end - start);
    }
    end
}

/// The place of the first comma of `s`, or its length where it has none.
pub open spec fn first_comma(s: Seq<char>) -> int
    decreases s.len(),
{
    if s.len() == 0 || s[0] == ',' {
        0
    } else {
        1 + first_comma(s.drop_first())
    }
}

/// The pieces that the commas of `s` part it into; text without a comma is
/// one piece, also where it is empty.
pub open spec fn pieces(s: Seq<char>) -> Seq<Seq<char>>
    decreases s.len(),
{
    let k = first_comma(s);
    if 0 <= k < s.len() {
        seq![s.take(k)] + pieces(s.skip(k + 1))
    } else {
        seq![s]
    }
}

/// The ledger that a list of coin texts amounts to, read in order.
pub open spec fn ledger_of_pieces(p: Seq<Seq<char>>) -> Map<Seq<char>, nat>
    decreases p.len(),
{
    if p.len() == 0 {
        Map::empty()
    } else {
        let c = coin_of_text(p.last())->0;
        ledger_of_pieces(p.drop_last()).insert(c.denom, c.amount)
    }
}

/// The ledger that text denotes: coins separated by commas, each of which
/// must be a coin; of two coins of one denomination the later one counts.
pub open spec fn ledger_of_text(s: Seq<char>) -> Option<Map<Seq<char>, nat>> {
    let p = pieces(s);
    if forall|i: int| 0 <= i < p.len() ==> coin_of_text(#[trigger] p[i]) is Some {
        Some(ledger_of_pieces(p))
    } else {
        None
    }
}

/// The first comma stands after `k` characters, none of which is a comma.
proof fn lemma_first_comma(s: Seq<char>, k: int)
    requires
        0 <= k <= s.len(),
        forall|i: int| 0 <= i < k ==> s[i] != ',',
        k == s.len() || s[k] == ',',
    ensures
        first_comma(s) == k,
    decreases k,
{
    if k > 0 {
        let t = s.drop_first();
        assert forall|i: int| 0 <= i < k - 1 implies t[i] != ',' by {
            assert(t[i] == s[i + 1]);
        }
        lemma_first_comma(t, k - 1);
    }
}

} // verus!
