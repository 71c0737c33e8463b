//! What holds where addition is exact: every strategy returns the plain
//! left-to-right sum, whatever the order in which it adds.

use vstd::prelude::*;
use crate::summand::{Summand, is_exact, zero_is_neutral, plus_is_associative, plus_is_commutative};
use crate::model::{
    accumulate, sequential_sum, group_count, lane, lane_totals, remainder, fold_halves, tree_sum,
    merge_rest, chain_sum, chunked_total, wide_total0, wide_total1, wide_total2, block_total,
    block_count, block, level, fold_total,
};
use crate::hierarchy::{BlockKernel, BLOCK, THRESHOLD};

verus! {

/// One instance of [`zero_is_neutral`].
proof fn lemma_neutral<T: Summand>(a: T)
    requires
        is_exact::<T>(),
    ensures
        T::spec_zero().spec_plus(a) == a,
        a.spec_plus(T::spec_zero()) == a,
{
    reveal(zero_is_neutral);
}

/// One instance of [`plus_is_associative`].
proof fn lemma_regroup<T: Summand>(a: T, b: T, c: T)
    requires
        is_exact::<T>(),
    ensures
        a.spec_plus(b).spec_plus(c) == a.spec_plus(b.spec_plus(c)),
{
    reveal(plus_is_associative);
}

/// One instance of [`plus_is_commutative`].
proof fn lemma_swap<T: Summand>(a: T, b: T)
    requires
        is_exact::<T>(),
    ensures
        a.spec_plus(b) == b.spec_plus(a),
{
    reveal(plus_is_commutative);
}

/// Two sums of two may trade their inner operands:
/// (a + b) + (c + d) == (a + c) + (b + d).
proof fn lemma_interchange<T: Summand>(a: T, b: T, c: T, d: T)
    requires
        is_exact::<T>(),
    ensures
        a.spec_plus(b).spec_plus(c.spec_plus(d)) == a.spec_plus(c).spec_plus(b.spec_plus(d)),
{
    lemma_regroup(a, b, c.spec_plus(d));
    lemma_regroup(b, c, d);
    lemma_swap(b, c);
    lemma_regroup(c, b, d);
    lemma_regroup(a, c, b.spec_plus(d));
}

/// Accumulating over a concatenation is accumulating over its parts in turn.
proof fn lemma_accumulate_append<T: Summand>(init: T, a: Seq<T>, b: Seq<T>)
    ensures
        accumulate(init, a + b) == accumulate(accumulate(init, a), b),
    decreases b.len(),
{
    if b.len() == 0 {
        assert(a + b == a);
    } else {
        assert((a + b).drop_last() == a + b.drop_last());
        lemma_accumulate_append(init, a, b.drop_last());
    }
}

/// Accumulating from `init` adds the sum of the sequence to `init`.
proof fn lemma_accumulate_from<T: Summand>(init: T, s: Seq<T>)
    requires
        is_exact::<T>(),
    ensures
        accumulate(init, s) == init.spec_plus(sequential_sum(s)),
    decreases s.len(),
{
    if s.len() == 0 {
        lemma_neutral(init);
    } else {
        lemma_accumulate_from(init, s.drop_last());
        lemma_regroup(init, sequential_sum(s.drop_last()), s.last());
    }
}

/// The sum of a concatenation is the sum of the sums of its parts.
pub proof fn lemma_sum_append<T: Summand>(a: Seq<T>, b: Seq<T>)
    requires
        is_exact::<T>(),
    ensures
        sequential_sum(a + b) == sequential_sum(a).spec_plus(sequential_sum(b)),
{
    lemma_accumulate_append(T::spec_zero(), a, b);
    lemma_accumulate_from(sequential_sum(a), b);
}

/// A sequence may be cut anywhere and its two parts summed apart.
proof fn lemma_sum_split<T: Summand>(s: Seq<T>, k: int)
    requires
        is_exact::<T>(),
        0 <= k <= s.len(),
    ensures
        sequential_sum(s) == sequential_sum(s.take(k)).spec_plus(sequential_sum(s.skip(k))),
{
    assert(s.take(k) + s.skip(k) == s);
    lemma_sum_append(s.take(k), s.skip(k));
}

/// The element-by-element sum of two sequences of one length.
spec fn pairwise<T: Summand>(a: Seq<T>, b: Seq<T>) -> Seq<T> {
    Seq::new(a.len(), |i: int| a[i].spec_plus(b[i]))
}

/// The element-by-element sum of two sequences sums to the sum of their
/// sums.
proof fn lemma_sum_pairwise<T: Summand>(a: Seq<T>, b: Seq<T>)
    requires
        is_exact::<T>(),
        a.len() == b.len(),
    ensures
        sequential_sum(pairwise(a, b)) == sequential_sum(a).spec_plus(sequential_sum(b)),
    decreases a.len(),
{
    if a.len() == 0 {
        lemma_neutral(T::spec_zero());
    } else {
        assert(pairwise(a, b).drop_last() == pairwise(a.drop_last(), b.drop_last()));
        lemma_sum_pairwise(a.drop_last(), b.drop_last());
        lemma_interchange(
            sequential_sum(a.drop_last()),
            sequential_sum(b.drop_last()),
            a.last(),
            b.last(),
        );
    }
}

/// The sum of one element is zero plus that element.
proof fn lemma_sum_single<T: Summand>(s: Seq<T>)
    requires
        s.len() == 1,
    ensures
        sequential_sum(s) == T::spec_zero().spec_plus(s[0]),
{
    reveal_with_fuel(accumulate, 2);
}

/// Any number of zeros sums to zero.
proof fn lemma_sum_zeros<T: Summand>(s: Seq<T>)
    requires
        T::spec_zero().spec_plus(T::spec_zero()) == T::spec_zero(),
        forall|i: int| 0 <= i < s.len() ==> s[i] == T::spec_zero(),
    ensures
        sequential_sum(s) == T::spec_zero(),
    decreases s.len(),
{
    if s.len() > 0 {
        lemma_sum_zeros(s.drop_last());
    }
}

/// The lane totals of a sequence made of complete groups sum to the sum of
/// the sequence.
proof fn lemma_lane_totals_whole<T: Summand>(s: Seq<T>, width: nat, groups: nat)
    requires
        is_exact::<T>(),
        width > 0,
        s.len() == groups * width,
    ensures
        sequential_sum(lane_totals(s, width)) == sequential_sum(s),
    decreases groups,
{
    assert(group_count(s, width) == groups) by (nonlinear_arith)
        requires
            width > 0,
            s.len() == groups * width,
            group_count(s, width) == s.len() / width,
    ;
    let totals = lane_totals(s, width);
    if groups == 0 {
        assert(s.len() == 0) by (nonlinear_arith)
            requires
                groups == 0,
                s.len() == groups * width,
        ;
        lemma_neutral(T::spec_zero());
        lemma_sum_zeros(totals);
    } else {
        let cut = (groups - 1) * width;
        assert(cut + width == groups * width) by (nonlinear_arith)
            requires
                cut == (groups - 1) * width,
        ;
        let front = s.take(cut);
        let back = s.skip(cut);
        assert(group_count(front, width) == groups - 1) by (nonlinear_arith)
            requires
                width > 0,
                front.len() == (groups - 1) * width,
                group_count(front, width) == front.len() / width,
        ;
        lemma_lane_totals_whole(front, width, (groups - 1) as nat);
        assert(totals == pairwise(lane_totals(front, width), back)) by {
            assert forall|i: int| 0 <= i < width implies totals[i] == lane_totals(
                front,
                width,
            )[i].spec_plus(back[i]) by {
                let whole = lane(s, width, i);
                assert forall|g: int| 0 <= g < groups - 1 implies whole.drop_last()[g] == lane(
                    front,
                    width,
                    i,
                )[g] by {
                    assert(g * width + i < cut) by (nonlinear_arith)
                        requires
                            0 <= g < groups - 1,
                            0 <= i < width,
                            cut == (groups - 1) * width,
                    ;
                }
                assert(whole.drop_last() == lane(front, width, i));
                assert(whole.last() == back[i]);
            }
        }
        lemma_sum_pairwise(lane_totals(front, width), back);
        lemma_sum_split(s, cut as int);
    }
}

/// The lane totals sum to the sum of the elements that the lanes took.
proof fn lemma_lane_totals_sum<T: Summand>(s: Seq<T>, width: nat)
    requires
        is_exact::<T>(),
        width > 0,
    ensures
        sequential_sum(lane_totals(s, width)) == sequential_sum(
            s.take((group_count(s, width) * width) as int),
        ),
{
    let groups = group_count(s, width);
    assert(groups * width <= s.len()) by (nonlinear_arith)
        requires
            width > 0,
            groups == s.len() / width,
    ;
    let taken = s.take((groups * width) as int);
    assert(group_count(taken, width) == groups) by (nonlinear_arith)
        requires
            width > 0,
            taken.len() == groups * width,
            group_count(taken, width) == taken.len() / width,
    ;
    assert(lane_totals(s, width) == lane_totals(taken, width)) by {
        assert forall|i: int| 0 <= i < width implies lane(s, width, i) == lane(
            taken,
            width,
            i,
        ) by {
            assert forall|g: int| 0 <= g < groups implies lane(s, width, i)[g] == lane(
                taken,
                width,
                i,
            )[g] by {
                assert(g * width + i < groups * width) by (nonlinear_arith)
                    requires
                        0 <= g < groups,
                        0 <= i < width,
                ;
            }
        }
    }
    lemma_lane_totals_whole(taken, width, groups);
}

/// Where addition is exact, the lane totals and the leftover elements
/// together hold the sum of the sequence: each element has gone into one
/// lane or is left over.
pub proof fn lemma_lanes_and_rest<T: Summand>(s: Seq<T>, width: nat)
    requires
        is_exact::<T>(),
        width > 0,
    ensures
        sequential_sum(lane_totals(s, width)).spec_plus(sequential_sum(remainder(s, width)))
            == sequential_sum(s),
{
    let groups = group_count(s, width);
    assert(groups * width <= s.len()) by (nonlinear_arith)
        requires
            width > 0,
            groups == s.len() / width,
    ;
    lemma_lane_totals_sum(s, width);
    lemma_sum_split(s, (groups * width) as int);
}

/// A round of pairwise folding keeps the sum.
proof fn lemma_fold_halves_sum<T: Summand>(s: Seq<T>)
    requires
        is_exact::<T>(),
        s.len() % 2 == 0,
    ensures
        sequential_sum(fold_halves(s)) == sequential_sum(s),
{
    let half = (s.len() / 2) as int;
    assert(fold_halves(s) == pairwise(s.take(half), s.skip(half)));
    lemma_sum_pairwise(s.take(half), s.skip(half));
    lemma_sum_split(s, half);
}

/// Whether `n` is a power of two.
pub open spec fn is_power_of_two(n: nat) -> bool
    decreases n,
{
    n == 1 || (n >= 2 && n % 2 == 0 && is_power_of_two(n / 2))
}

/// Where addition is exact, the balanced tree over a power of two of values
/// is their sum.
pub proof fn lemma_tree_sum<T: Summand>(s: Seq<T>)
    requires
        is_exact::<T>(),
        is_power_of_two(s.len()),
    ensures
        tree_sum(s) == sequential_sum(s),
    decreases s.len(),
{
    if s.len() == 1 {
        lemma_sum_single(s);
        lemma_neutral(s[0]);
    } else {
        lemma_fold_halves_sum(s);
        lemma_tree_sum(fold_halves(s));
    }
}

/// Joining the leftover elements to lane 0 adds their sum to the total.
proof fn lemma_merge_rest_sum<T: Summand>(totals: Seq<T>, rest: Seq<T>)
    requires
        is_exact::<T>(),
        totals.len() > 0,
    ensures
        sequential_sum(merge_rest(totals, rest)) == sequential_sum(totals).spec_plus(
            sequential_sum(rest),
        ),
{
    if rest.len() == 0 {
        lemma_neutral(sequential_sum(totals));
    } else {
        let r = sequential_sum(rest);
        let merged = merge_rest(totals, rest);
        let tail = sequential_sum(totals.skip(1));
        lemma_sum_split(totals, 1);
        lemma_sum_split(merged, 1);
        assert(merged.skip(1) == totals.skip(1));
        lemma_sum_single(totals.take(1));
        lemma_sum_single(merged.take(1));
        lemma_neutral(totals[0]);
        lemma_neutral(merged[0]);
        // (t0 + r) + tail == (t0 + tail) + r
        lemma_regroup(totals[0], r, tail);
        lemma_swap(r, tail);
        lemma_regroup(totals[0], tail, r);
    }
}

/// A chain over the lane totals adds them all to the sum of the leftover
/// elements.
proof fn lemma_chain_sum<T: Summand>(totals: Seq<T>, rest: Seq<T>)
    requires
        is_exact::<T>(),
        totals.len() > 0,
    ensures
        chain_sum(totals, rest) == sequential_sum(totals).spec_plus(sequential_sum(rest)),
{
    if rest.len() == 0 {
        lemma_accumulate_from(totals[0], totals.skip(1));
        lemma_sum_split(totals, 1);
        lemma_sum_single(totals.take(1));
        lemma_neutral(totals[0]);
        lemma_neutral(sequential_sum(totals));
    } else {
        lemma_accumulate_from(sequential_sum(rest), totals);
        lemma_swap(sequential_sum(rest), sequential_sum(totals));
    }
}

/// Sixteen lanes, a fold, the leftover elements and a tree: the sum.
proof fn lemma_chunked_total<T: Summand>(s: Seq<T>)
    requires
        is_exact::<T>(),
    ensures
        chunked_total(s) == sequential_sum(s),
{
    let wide = lane_totals(s, 16);
    let eight = fold_halves(wide);
    let rest = remainder(s, 16);
    assert(is_power_of_two(8)) by {
        reveal_with_fuel(is_power_of_two, 4);
    }
    lemma_tree_sum(merge_rest(eight, rest));
    lemma_merge_rest_sum(eight, rest);
    lemma_fold_halves_sum(wide);
    lemma_lanes_and_rest(s, 16);
}

/// Sixteen lanes, up to two folds, the leftover elements and a chain: the
/// sum.
proof fn lemma_wide_totals<T: Summand>(s: Seq<T>)
    requires
        is_exact::<T>(),
    ensures
        wide_total0(s) == sequential_sum(s),
        wide_total1(s) == sequential_sum(s),
        wide_total2(s) == sequential_sum(s),
{
    let wide = lane_totals(s, 16);
    let eight = fold_halves(wide);
    let four = fold_halves(eight);
    let rest = remainder(s, 16);
    lemma_lanes_and_rest(s, 16);
    lemma_fold_halves_sum(wide);
    lemma_fold_halves_sum(eight);
    lemma_chain_sum(wide, rest);
    lemma_chain_sum(eight, rest);
    lemma_chain_sum(four, rest);
}

/// Either kernel makes of a block the sum of its elements.
proof fn lemma_block_total<T: Summand>(piece: Seq<T>, kernel: BlockKernel)
    requires
        is_exact::<T>(),
    ensures
        block_total(piece, kernel) == sequential_sum(piece),
{
    if piece.len() == BLOCK && kernel == BlockKernel::Expanded {
        let first = lane_totals(piece, 128);
        let second = lane_totals(first, 32);
        let third = lane_totals(second, 8);
        assert(is_power_of_two(8)) by {
            reveal_with_fuel(is_power_of_two, 4);
        }
        lemma_tree_sum(third);
        lemma_lane_totals_whole(second, 8, 4);
        lemma_lane_totals_whole(first, 32, 4);
        lemma_lane_totals_whole(piece, 128, 4);
    } else {
        lemma_chunked_total(piece);
    }
}

/// Where addition is exact, a level holds the sum of the sequence it was made
/// from: each element has gone into one block total.
pub proof fn lemma_level_sum<T: Summand>(s: Seq<T>, kernel: BlockKernel)
    requires
        is_exact::<T>(),
    ensures
        sequential_sum(level(s, kernel)) == sequential_sum(s),
    decreases s.len(),
{
    let count = block_count(s.len());
    let totals = level(s, kernel);
    if s.len() == 0 {
        assert(totals.len() == 0);
    } else {
        let cut = (count - 1) * BLOCK;
        let front = s.take(cut);
        let back = s.skip(cut);
        assert(back == block(s, count - 1));
        assert(totals.drop_last() == level(front, kernel)) by {
            assert forall|b: int| 0 <= b < count - 1 implies block(s, b) == block(front, b) by {}
        }
        lemma_level_sum(front, kernel);
        lemma_block_total(back, kernel);
        lemma_sum_split(s, cut);
    }
}

/// Level after level, the hierarchy keeps the sum.
proof fn lemma_fold_total<T: Summand>(s: Seq<T>, kernel: BlockKernel)
    requires
        is_exact::<T>(),
    ensures
        fold_total(s, kernel) == sequential_sum(s),
    decreases s.len(),
{
    if s.len() < THRESHOLD {
        lemma_chunked_total(s);
    } else {
        lemma_level_sum(s, kernel);
        lemma_fold_total(level(s, kernel), kernel);
    }
}

/// Where addition is exact, every strategy returns the left-to-right sum of
/// its input: no element is dropped or counted twice, and the strategies
/// agree with each other to the last bit.
pub proof fn lemma_strategies_agree<T: Summand>(s: Seq<T>)
    requires
        is_exact::<T>(),
    ensures
        chunked_total(s) == sequential_sum(s),
        wide_total0(s) == sequential_sum(s),
        wide_total1(s) == sequential_sum(s),
        wide_total2(s) == sequential_sum(s),
        fold_total(s, BlockKernel::Chunked) == sequential_sum(s),
        fold_total(s, BlockKernel::Expanded) == sequential_sum(s),
{
    lemma_chunked_total(s);
    lemma_wide_totals(s);
    lemma_fold_total(s, BlockKernel::Chunked);
    lemma_fold_total(s, BlockKernel::Expanded);
}

/// A sequence read backwards has the same sum.
proof fn lemma_sum_reverse<T: Summand>(s: Seq<T>)
    requires
        is_exact::<T>(),
    ensures
        sequential_sum(s.reverse()) == sequential_sum(s),
    decreases s.len(),
{
    if s.len() > 0 {
        let head = seq![s.last()];
        let body = s.drop_last();
        assert(s.reverse() == head + body.reverse());
        lemma_sum_append(head, body.reverse());
        lemma_sum_reverse(body);
        lemma_sum_single(head);
        lemma_neutral(s.last());
        lemma_swap(s.last(), sequential_sum(body));
    } else {
        assert(s.reverse() == s);
    }
}

/// Where addition is exact, no strategy returns anything else for the input
/// read backwards.
pub proof fn lemma_reversal_keeps_totals<T: Summand>(s: Seq<T>)
    requires
        is_exact::<T>(),
    ensures
        sequential_sum(s.reverse()) == sequential_sum(s),
        chunked_total(s.reverse()) == chunked_total(s),
        wide_total0(s.reverse()) == wide_total0(s),
        wide_total1(s.reverse()) == wide_total1(s),
        wide_total2(s.reverse()) == wide_total2(s),
        fold_total(s.reverse(), BlockKernel::Chunked) == fold_total(s, BlockKernel::Chunked),
        fold_total(s.reverse(), BlockKernel::Expanded) == fold_total(s, BlockKernel::Expanded),
{
    lemma_sum_reverse(s);
    lemma_strategies_agree(s);
    lemma_strategies_agree(s.reverse());
}

/// Modulo 2^64, `n` copies of `v` sum to `n * v`, by whichever strategy.
pub proof fn lemma_constant_input(n: nat, v: u64)
    ensures
        sequential_sum(Seq::new(n, |i: int| v)) == (n * v) % 0x1_0000_0000_0000_0000,
        chunked_total(Seq::new(n, |i: int| v)) == (n * v) % 0x1_0000_0000_0000_0000,
        wide_total0(Seq::new(n, |i: int| v)) == (n * v) % 0x1_0000_0000_0000_0000,
        wide_total1(Seq::new(n, |i: int| v)) == (n * v) % 0x1_0000_0000_0000_0000,
        wide_total2(Seq::new(n, |i: int| v)) == (n * v) % 0x1_0000_0000_0000_0000,
        fold_total(Seq::new(n, |i: int| v), BlockKernel::Chunked) == (n * v)
            % 0x1_0000_0000_0000_0000,
        fold_total(Seq::new(n, |i: int| v), BlockKernel::Expanded) == (n * v)
            % 0x1_0000_0000_0000_0000,
    decreases n,
{
    let s = Seq::new(n, |i: int| v);
    if n > 0 {
        let m = (n - 1) as nat;
        assert(s.drop_last() == Seq::new(m, |i: int| v));
        lemma_constant_input(m, v);
        assert(n * v == m * v + v) by (nonlinear_arith)
            requires
                m == n - 1,
        ;
        vstd::arithmetic::div_mod::lemma_add_mod_noop_right(
            v as int,
            (m * v) as int,
            0x1_0000_0000_0000_0000,
        );
    }
    crate::summand::lemma_u64_is_exact();
    lemma_strategies_agree(s);
}

} // verus!
