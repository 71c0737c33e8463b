//! The additive structure that every strategy sums over.

use vstd::prelude::*;

verus! {

/// A type whose values can be added.
///
/// Nothing is asked of the addition but that it is a function of its two
/// operands: it need not be associative, so rounding additions fit. Each
/// strategy therefore states the exact order in which it combines its input.
pub trait Summand: Copy {
    /// What `zero` returns.
    spec fn spec_zero() -> Self;

    /// What `plus` returns: the sum of `self` and `rhs`, in this order.
    spec fn spec_plus(self, rhs: Self) -> Self;

    /// The value of an empty sum.
    fn zero() -> (z: Self)
        ensures
            z == Self::spec_zero(),
    ;

    /// Adds `rhs` to `self`.
    fn plus(self, rhs: Self) -> (s: Self)
        ensures
            s == self.spec_plus(rhs),
    ;
}

/// Addition modulo 2^64.
impl Summand for u64 {
    open spec fn spec_zero() -> u64 {
        0
    }

    open spec fn spec_plus(self, rhs: u64) -> u64 {
        ((self + rhs) % 0x1_0000_0000_0000_0000) as u64
    }

    fn zero() -> (z: u64) {
        0
    }

    fn plus(self, rhs: u64) -> (s: u64) {
        self.wrapping_add(rhs)
    }
}

/// Zero added on either side changes nothing.
#[verifier::opaque]
pub open spec fn zero_is_neutral<T: Summand>() -> bool {
    forall|a: T|
        #![trigger a.spec_plus(T::spec_zero())]
        #![trigger T::spec_zero().spec_plus(a)]
        T::spec_zero().spec_plus(a) == a && a.spec_plus(T::spec_zero()) == a
}

/// The grouping of two additions does not matter.
#[verifier::opaque]
pub open spec fn plus_is_associative<T: Summand>() -> bool {
    forall|a: T, b: T, c: T| #[trigger]
        a.spec_plus(b).spec_plus(c) == a.spec_plus(b.spec_plus(c))
}

/// The order of the two operands does not matter.
#[verifier::opaque]
pub open spec fn plus_is_commutative<T: Summand>() -> bool {
    forall|a: T, b: T| #[trigger] a.spec_plus(b) == b.spec_plus(a)
}

/// Addition on `T` is exact: it loses nothing, so that a sum depends only on
/// what is summed and not on the order of the additions. Rounding additions
/// are not exact.
pub open spec fn is_exact<T: Summand>() -> bool {
    &&& zero_is_neutral::<T>()
    &&& plus_is_associative::<T>()
    &&& plus_is_commutative::<T>()
}

/// Addition modulo 2^64 is exact.
pub proof fn lemma_u64_is_exact()
    ensures
        is_exact::<u64>(),
{
    reveal(zero_is_neutral);
    reveal(plus_is_associative);
    reveal(plus_is_commutative);
}

} // verus!
