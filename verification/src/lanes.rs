//! The building blocks of the lane-parallel strategies: the lane kernel, the
//! pairwise fold and the tree combinator.

use vstd::prelude::*;
use crate::summand::Summand;
use crate::model::{sequential_sum, group_count, lane, lane_totals, fold_halves, tree_sum};

verus! {

/// One more group extends the sum of a lane by that group's element.
proof fn lemma_lane_step<T: Summand>(s: Seq<T>, width: nat, i: int, g: int)
    requires
        0 <= i < width,
        0 <= g < group_count(s, width),
    ensures
        sequential_sum(lane(s, width, i).take(g + 1)) == sequential_sum(
            lane(s, width, i).take(g),
        ).spec_plus(s[g * width + i]),
{
    let l = lane(s, width, i);
    assert(l.take(g + 1).drop_last() == l.take(g));
    assert(l.take(g + 1).last() == s[g * width + i]);
}

/// A group that is complete lies within the sequence.
proof fn lemma_group_in_bounds(len: nat, width: nat, g: nat)
    requires
        width > 0,
        g < len / width,
    ensures
        g * width + width <= len,
{
    assert((g + 1) * width <= (len / width) * width) by (nonlinear_arith)
        requires
            g + 1 <= len / width,
            width > 0,
    ;
    assert((len / width) * width <= len) by (nonlinear_arith)
        requires
            width > 0,
    ;
    assert((g + 1) * width == g * width + width) by (nonlinear_arith);
}

/// The lane kernel: deals `values` out to `L` accumulators, group by group,
/// and returns the `L` lane totals. Within a group no accumulator depends on
/// another. Elements after the last complete group are not read.
pub fn lane_sums<T: Summand, const L: usize>(values: &[T]) -> (totals: [T; L])
    ensures
        totals@ == lane_totals(values@, L as nat),
{
    let mut totals = [T::zero();L];
    if L == 0 {
        return totals;
    }
    let groups = values.len() / L;
    let mut g: usize = 0;
    let mut base: usize = 0;
    while g < groups
        invariant
            L > 0,
            groups == group_count(values@, L as nat),
            g <= groups,
            base == g * L,
            values@.len() <= usize::MAX,
            forall|i: int|
                0 <= i < L ==> totals@[i] == sequential_sum(
                    #[trigger] lane(values@, L as nat, i).take(g as int),
                ),
        decreases groups - g,
    {
        proof {
            lemma_group_in_bounds(values@.len(), L as nat, g as nat);
        }
        let mut i: usize = 0;
        while i < L
            invariant
                L > 0,
                g < groups,
                groups == group_count(values@, L as nat),
                base == g * L,
                base + L <= values@.len(),
                values@.len() <= usize::MAX,
                i <= L,
                forall|j: int|
                    0 <= j < i ==> totals@[j] == sequential_sum(
                        #[trigger] lane(values@, L as nat, j).take(g + 1),
                    ),
                forall|j: int|
                    i <= j < L ==> totals@[j] == sequential_sum(
                        #[trigger] lane(values@, L as nat, j).take(g as int),
                    ),
            decreases L - i,
        {
            proof {
                lemma_lane_step(values@, L as nat, i as int, g as int);
            }
            totals[i] = totals[i].plus(values[base + i]);
            i += 1;
        }
        proof {
            assert((g + 1) * L == g * L + L) by (nonlinear_arith);
        }
        base += L;
        g += 1;
    }
    proof {
        assert forall|i: int| 0 <= i < L implies totals@[i] == lane_totals(values@, L as nat)[i] by {
            let l = lane(values@, L as nat, i);
            assert(l.take(g as int) == l);
        }
    }
    totals
}

/// One round of pairwise folding: lane `i` plus lane `i + H`, for each `i`
/// below `H`.
pub(crate) fn fold_lanes<T: Summand, const N: usize, const H: usize>(totals: &[T; N]) -> (folded: [
    T;
    H
])
    requires
        N == 2 * H,
    ensures
        folded@ == fold_halves(totals@),
{
    let mut folded = [T::zero();H];
    let mut i: usize = 0;
    while i < H
        invariant
            N == 2 * H,
            i <= H,
            forall|j: int| 0 <= j < i ==> folded@[j] == fold_halves(totals@)[j],
        decreases H - i,
    {
        folded[i] = totals[i].plus(totals[i + H]);
        i += 1;
    }
    folded
}

/// The tree combinator for eight lanes. The first round pairs lanes (0, 4),
/// (1, 5), (2, 6) and (3, 7); the second pairs the four results as (0, 2) and
/// (1, 3); the last adds the two survivors.
pub fn sum_8_to_1<T: Summand>(values: &[T; 8]) -> (total: T)
    ensures
        total == tree_sum(values@),
{
    let four: [T; 4] = fold_lanes::<T, 8, 4>(values);
    let total = four[0].plus(four[2]).plus(four[1].plus(four[3]));
    proof {
        let two = fold_halves(four@);
        let one = fold_halves(two);
        assert(one[0] == total);
        assert(tree_sum(one) == total);
        assert(tree_sum(two) == tree_sum(one));
        assert(tree_sum(four@) == tree_sum(two));
        assert(tree_sum(values@) == tree_sum(four@));
    }
    total
}

} // verus!
