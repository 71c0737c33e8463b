//! The single-pass strategies: sixteen lanes over the whole input, then one
//! of four ways to combine the lane totals.

use vstd::prelude::*;
use crate::summand::Summand;
use crate::model::{
    accumulate, lane_totals, remainder, fold_halves, chain_sum, chunked_total, wide_total0,
    wide_total1, wide_total2,
};
use crate::lanes::{lane_sums, fold_lanes, sum_8_to_1};
use crate::sequential::iter_sum;

verus! {

/// The number of accumulators that one pass over the input advances.
pub const LANES: usize = 16;

/// The elements of `values` after its last complete group of `width`.
pub fn rest_after_groups<T>(values: &[T], width: usize) -> (rest: &[T])
    ensures
        rest@ == remainder(values@, width as nat),
{
    if width == 0 {
        proof {
            assert(values@.skip(0) == values@);
        }
        values
    } else {
        let len = values.len();
        let tail = len % width;
        proof {
            assert(len - tail == (len / width) * width) by (nonlinear_arith)
                requires
                    width > 0,
                    tail == len % width,
            ;
        }
        let rest = &values[len - tail..len];
        proof {
            assert(values@.subrange(len - tail, len as int) == values@.skip(len - tail));
        }
        rest
    }
}

/// Sixteen lanes over `values`, folded once to eight, and the elements that
/// no lane took.
pub fn chunked_reduce<T: Summand>(values: &[T]) -> (out: (&[T], [T; 8]))
    ensures
        out.0@ == remainder(values@, 16),
        out.1@ == fold_halves(lane_totals(values@, 16)),
{
    let wide: [T; 16] = lane_sums::<T, LANES>(values);
    let totals: [T; 8] = fold_lanes::<T, LANES, 8>(&wide);
    (rest_after_groups(values, LANES), totals)
}

/// Sums `values` over sixteen lanes, folded once to eight. The left-to-right
/// sum of the leftover elements, if there are any, is added to lane 0; the
/// eight totals are then summed as a balanced tree.
pub fn chunked_sum<T: Summand>(values: &[T]) -> (total: T)
    ensures
        total == chunked_total(values@),
{
    let (rest, mut totals) = chunked_reduce(values);
    if rest.len() != 0 {
        totals[0] = totals[0].plus(iter_sum(rest));
    }
    sum_8_to_1(&totals)
}

/// Sums `totals` in one chain, left to right, starting from the sum of `rest`
/// or, where `rest` is empty, from the first total.
fn chain_lanes<T: Summand>(totals: &[T], rest: &[T]) -> (total: T)
    requires
        totals@.len() > 0,
    ensures
        total == chain_sum(totals@, rest@),
{
    let mut total: T;
    let mut i: usize;
    if rest.len() == 0 {
        total = totals[0];
        i = 1;
    } else {
        total = iter_sum(rest);
        i = 0;
    }
    let ghost start = total;
    let ghost from = i as int;
    proof {
        assert(totals@.subrange(from, from).len() == 0);
    }
    while i < totals.len()
        invariant
            0 <= from <= i <= totals@.len(),
            total == accumulate(start, totals@.subrange(from, i as int)),
        decreases totals@.len() - i,
    {
        proof {
            assert(totals@.subrange(from, i + 1).drop_last() == totals@.subrange(from, i as int));
        }
        total = total.plus(totals[i]);
        i += 1;
    }
    proof {
        assert(totals@.subrange(from, i as int) == totals@.skip(from));
        assert(totals@.skip(0) == totals@);
    }
    total
}

/// Sums `values` over sixteen lanes and adds the sixteen totals in one chain.
pub fn wide_sum_fold0<T: Summand>(values: &[T]) -> (total: T)
    ensures
        total == wide_total0(values@),
{
    let wide: [T; 16] = lane_sums::<T, LANES>(values);
    chain_lanes(wide.as_slice(), rest_after_groups(values, LANES))
}

/// Sums `values` over sixteen lanes, folds them once to eight and adds the
/// eight totals in one chain.
pub fn wide_sum_fold1<T: Summand>(values: &[T]) -> (total: T)
    ensures
        total == wide_total1(values@),
{
    let wide: [T; 16] = lane_sums::<T, LANES>(values);
    let eight: [T; 8] = fold_lanes::<T, LANES, 8>(&wide);
    chain_lanes(eight.as_slice(), rest_after_groups(values, LANES))
}

/// Sums `values` over sixteen lanes, folds them twice to four and adds the
/// four totals in one chain.
pub fn wide_sum_fold2<T: Summand>(values: &[T]) -> (total: T)
    ensures
        total == wide_total2(values@),
{
    let wide: [T; 16] = lane_sums::<T, LANES>(values);
    let eight: [T; 8] = fold_lanes::<T, LANES, 8>(&wide);
    let four: [T; 4] = fold_lanes::<T, 8, 4>(&eight);
    chain_lanes(four.as_slice(), rest_after_groups(values, LANES))
}

} // verus!
