//! Prices and their order.

use vstd::prelude::*;

verus! {

/// The bit that carries the sign of a binary64 number.
pub const SIGN_BIT: u64 = 0x8000_0000_0000_0000;

/// A price, held as the bit pattern of an IEEE 754 binary64 number.
///
/// Prices are compared by the total order that IEEE 754 defines on such
/// patterns. On numbers it is the numeric order, with negative zero below
/// positive zero. Patterns that are not a number have a place in it as well:
/// above positive infinity with the sign bit clear, below negative infinity
/// with the sign bit set.
#[derive(Clone, Copy, Debug, PartialEq, Eq, Structural)]
pub struct Price {
    pub bits: u64,
}

impl Price {
    /// The place of the price in the total order, as an integer: a pattern
    /// with the sign bit clear stands at its own value, one with the sign bit
    /// set at minus its magnitude minus one.
    pub open spec fn rank(self) -> int {
        if self.bits < SIGN_BIT {
            self.bits as int
        } else {
            SIGN_BIT - 1 - self.bits
        }
    }

    /// `self` is at most `other` in the total order.
    pub open spec fn spec_le(self, other: Price) -> bool {
        self.rank() <= other.rank()
    }

    /// Compares two prices in the total order.
    #[verifier::when_used_as_spec(spec_le)]
    pub fn le(self, other: Price) -> (b: bool)
        ensures
            b == self.spec_le(other),
    {
        if self.bits < SIGN_BIT {
            other.bits < SIGN_BIT && self.bits <= other.bits
        } else {
            other.bits < SIGN_BIT || other.bits <= self.bits
        }
    }
}

/// The total order on prices, as a relation.
pub open spec fn price_order() -> spec_fn(Price, Price) -> bool {
    |a: Price, b: Price| a.spec_le(b)
}

/// Two prices with the same rank are the same price.
pub proof fn lemma_rank_injective(a: Price, b: Price)
    requires
        a.rank() == b.rank(),
    ensures
        a == b,
{
}

/// The order on prices is reflexive, antisymmetric, transitive and total.
pub proof fn lemma_price_order_total()
    ensures
        vstd::relations::total_ordering(price_order()),
{
    let leq = price_order();
    assert forall|a: Price, b: Price| #[trigger] leq(a, b) && #[trigger] leq(b, a) implies a
        == b by {
        lemma_rank_injective(a, b);
    }
}

} // verus!
