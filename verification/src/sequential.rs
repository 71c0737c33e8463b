//! The two plain strategies: one accumulator, advanced element by element.

use vstd::prelude::*;
use crate::summand::Summand;
use crate::model::sequential_sum;

verus! {

/// Sums `values` left to right with an indexed loop.
pub fn for_sum<T: Summand>(values: &[T]) -> (total: T)
    ensures
        total == sequential_sum(values@),
{
    let mut total = T::zero();
    let mut i: usize = 0;
    while i < values.len()
        invariant
            i <= values@.len(),
            total == sequential_sum(values@.take(i as int)),
        decreases values@.len() - i,
    {
        proof {
            assert(values@.take(i + 1).drop_last() == values@.take(i as int));
        }
        total = total.plus(values[i]);
        i += 1;
    }
    proof {
        assert(values@.take(i as int) == values@);
    }
    total
}

/// Sums `values` left to right by walking the slice's iterator.
pub fn iter_sum<T: Summand>(values: &[T]) -> (total: T)
    ensures
        total == sequential_sum(values@),
{
    let mut total = T::zero();
    for x in it: values.iter()
        invariant
            it.seq() == values@.as_ref(),
            total == sequential_sum(values@.take(it.index() as int)),
    {
        proof {
            assert(values@.take(it.index() + 1).drop_last() == values@.take(it.index() as int));
        }
        total = total.plus(*x);
    }
    proof {
        assert(values@.take(values@.len() as int) == values@);
    }
    total
}

} // verus!
