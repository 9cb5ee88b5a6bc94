//! The order of amounts and of decimals: that of the numbers they hold.

use crate::dec::Dec;
use crate::uint128::Uint128;
use std::cmp::Ordering;
use vstd::prelude::*;
use vstd::std_specs::cmp::PartialOrdSpec;
use vstd::std_specs::cmp::PartialOrdSpecImpl;

verus! {

/// How the integer `a` stands to the integer `b`.
pub open spec fn int_order(a: int, b: int) -> Ordering {
    if a < b {
        Ordering::Less
    } else if a == b {
        Ordering::Equal
    } else {
        Ordering::Greater
    }
}

impl PartialOrd for Uint128 {
    fn partial_cmp(&self, other: &Self) -> (r: Option<Ordering>) {
        if self.0 < other.0 {
            Some(Ordering::Less)
        } else if self.0 == other.0 {
            Some(Ordering::Equal)
        } else {
            Some(Ordering::Greater)
        }
    }
}

impl PartialOrdSpecImpl for Uint128 {
    open spec fn obeys_partial_cmp_spec() -> bool {
        true
    }

    open spec fn partial_cmp_spec(&self, other: &Self) -> Option<Ordering> {
        Some(
            if self.0 < other.0 {
                Ordering::Less
            } else if self.0 == other.0 {
                Ordering::Equal
            } else {
                Ordering::Greater
            },
        )
    }
}

impl PartialOrd for Dec {
    fn partial_cmp(&self, other: &Self) -> (r: Option<Ordering>) {
        if self.0 < other.0 {
            Some(Ordering::Less)
        } else if self.0 == other.0 {
            Some(Ordering::Equal)
        } else {
            Some(Ordering::Greater)
        }
    }
}

impl PartialOrdSpecImpl for Dec {
    open spec fn obeys_partial_cmp_spec() -> bool {
        true
    }

    open spec fn partial_cmp_spec(&self, other: &Self) -> Option<Ordering> {
        Some(int_order(self@, other@))
    }
}

/// Amounts are totally ordered by magnitude: of two amounts exactly one
/// is less, equal or greater, as their numbers are, and the order is
/// transitive.
pub proof fn lemma_amount_order_is_total(a: Uint128, b: Uint128, c: Uint128)
    ensures
        PartialOrdSpec::partial_cmp_spec(&a, &b) == Some(Ordering::Less) <==> a@ < b@,
        PartialOrdSpec::partial_cmp_spec(&a, &b) == Some(Ordering::Equal) <==> a == b,
        PartialOrdSpec::partial_cmp_spec(&a, &b) == Some(Ordering::Greater) <==> PartialOrdSpec::partial_cmp_spec(&b, &a) == Some(
            Ordering::Less,
        ),
        PartialOrdSpec::partial_cmp_spec(&a, &b) == Some(Ordering::Less) && PartialOrdSpec::partial_cmp_spec(&b, &c) == Some(
            Ordering::Less,
        ) ==> PartialOrdSpec::partial_cmp_spec(&a, &c) == Some(Ordering::Less),
{
}

/// Decimals are totally ordered by their raw values.
pub proof fn lemma_dec_order_is_total(a: Dec, b: Dec, c: Dec)
    ensures
        PartialOrdSpec::partial_cmp_spec(&a, &b) == Some(Ordering::Less) <==> a@ < b@,
        PartialOrdSpec::partial_cmp_spec(&a, &b) == Some(Ordering::Equal) <==> a == b,
        PartialOrdSpec::partial_cmp_spec(&a, &b) == Some(Ordering::Greater) <==> PartialOrdSpec::partial_cmp_spec(&b, &a) == Some(
            Ordering::Less,
        ),
        PartialOrdSpec::partial_cmp_spec(&a, &b) == Some(Ordering::Less) && PartialOrdSpec::partial_cmp_spec(&b, &c) == Some(
            Ordering::Less,
        ) ==> PartialOrdSpec::partial_cmp_spec(&a, &c) == Some(Ordering::Less),
{
}

} // verus!
