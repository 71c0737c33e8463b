//! The mathematical model: what each strategy computes, as functions on
//! sequences.
//!
//! Addition is not assumed to be associative, so every function here fixes
//! the order of its additions, operand by operand.

use vstd::prelude::*;
use crate::summand::Summand;
use crate::hierarchy::{BlockKernel, BLOCK, THRESHOLD};

verus! {

/// `init`, then each element of `s` added on the right, first to last.
pub open spec fn accumulate<T: Summand>(init: T, s: Seq<T>) -> T
    decreases s.len(),
{
    if s.len() == 0 {
        init
    } else {
        accumulate(init, s.drop_last()).spec_plus(s.last())
    }
}

/// The strict left-to-right sum of `s`, starting from zero.
pub open spec fn sequential_sum<T: Summand>(s: Seq<T>) -> T {
    accumulate(T::spec_zero(), s)
}

/// How many complete groups of `width` elements `s` holds.
pub open spec fn group_count<T>(s: Seq<T>, width: nat) -> nat {
    if width == 0 {
        0
    } else {
        s.len() / width
    }
}

/// The elements of `s` that fall to lane `i` when `s` is dealt out in groups
/// of `width`: element `i` of each complete group, in input order.
pub open spec fn lane<T>(s: Seq<T>, width: nat, i: int) -> Seq<T> {
    Seq::new(group_count(s, width), |g: int| s[g * width + i])
}

/// The `width` lane totals of `s`: total `i` is the left-to-right sum of
/// lane `i`. Elements after the last complete group belong to no lane.
pub open spec fn lane_totals<T: Summand>(s: Seq<T>, width: nat) -> Seq<T> {
    Seq::new(width, |i: int| sequential_sum(lane(s, width, i)))
}

/// What is left of `s` after its complete groups of `width`.
pub open spec fn remainder<T>(s: Seq<T>, width: nat) -> Seq<T> {
    s.skip((group_count(s, width) * width) as int)
}

/// One round of pairwise folding: element `i` of the lower half plus element
/// `i` of the upper half. Meant for sequences of even length.
pub open spec fn fold_halves<T: Summand>(s: Seq<T>) -> Seq<T> {
    Seq::new(s.len() / 2, |i: int| s[i].spec_plus(s[i + s.len() / 2]))
}

/// The balanced pairwise sum of `s`: rounds of [`fold_halves`] until one
/// value is left. Meant for sequences whose length is a power of two.
pub open spec fn tree_sum<T: Summand>(s: Seq<T>) -> T
    decreases s.len(),
{
    if s.len() == 0 {
        T::spec_zero()
    } else if s.len() == 1 {
        s[0]
    } else {
        tree_sum(fold_halves(s))
    }
}

/// The lane totals once the sum of the leftover elements has joined them: it
/// is added to lane 0, on the right. With nothing left over, no addition is
/// made.
pub open spec fn merge_rest<T: Summand>(totals: Seq<T>, rest: Seq<T>) -> Seq<T> {
    if rest.len() == 0 {
        totals
    } else {
        totals.update(0, totals[0].spec_plus(sequential_sum(rest)))
    }
}

/// The lane totals summed in one chain, left to right. The chain starts from
/// the sum of the leftover elements, or from lane 0 where nothing is left
/// over.
pub open spec fn chain_sum<T: Summand>(totals: Seq<T>, rest: Seq<T>) -> T {
    if rest.len() == 0 {
        accumulate(totals[0], totals.skip(1))
    } else {
        accumulate(sequential_sum(rest), totals)
    }
}

/// What [`chunked_sum`](crate::flat::chunked_sum) returns: sixteen lane
/// totals, folded once to eight, joined by the leftover elements and summed
/// as a balanced tree.
pub open spec fn chunked_total<T: Summand>(s: Seq<T>) -> T {
    tree_sum(merge_rest(fold_halves(lane_totals(s, 16)), remainder(s, 16)))
}

/// What [`wide_sum_fold0`](crate::flat::wide_sum_fold0) returns: sixteen lane
/// totals summed in one chain.
pub open spec fn wide_total0<T: Summand>(s: Seq<T>) -> T {
    chain_sum(lane_totals(s, 16), remainder(s, 16))
}

/// What [`wide_sum_fold1`](crate::flat::wide_sum_fold1) returns: sixteen lane
/// totals, folded once to eight and summed in one chain.
pub open spec fn wide_total1<T: Summand>(s: Seq<T>) -> T {
    chain_sum(fold_halves(lane_totals(s, 16)), remainder(s, 16))
}

/// What [`wide_sum_fold2`](crate::flat::wide_sum_fold2) returns: sixteen lane
/// totals, folded twice to four and summed in one chain.
pub open spec fn wide_total2<T: Summand>(s: Seq<T>) -> T {
    chain_sum(fold_halves(fold_halves(lane_totals(s, 16))), remainder(s, 16))
}

/// What the expanded kernel makes of one block: 128 lane totals, dealt out
/// again to 32 lanes, those again to 8, and the eight summed as a balanced
/// tree.
pub open spec fn expanded_block_total<T: Summand>(block: Seq<T>) -> T {
    tree_sum(lane_totals(lane_totals(lane_totals(block, 128), 32), 8))
}

/// The scalar that stands for one block on the next level. A complete block
/// goes through `kernel`; a shorter one, which can only be the last, is
/// summed as [`chunked_total`].
pub open spec fn block_total<T: Summand>(block: Seq<T>, kernel: BlockKernel) -> T {
    if block.len() == BLOCK && kernel == BlockKernel::Expanded {
        expanded_block_total(block)
    } else {
        chunked_total(block)
    }
}

/// How many blocks a sequence of `len` elements is cut into: the complete
/// ones and, where `len` is no multiple of the block size, one shorter block.
pub open spec fn block_count(len: nat) -> nat {
    (len + BLOCK - 1) as nat / (BLOCK as nat)
}

/// Block `b` of `s`: `BLOCK` consecutive elements, or fewer at the end.
pub open spec fn block<T>(s: Seq<T>, b: int) -> Seq<T> {
    if (b + 1) * BLOCK <= s.len() {
        s.subrange(b * BLOCK, (b + 1) * BLOCK)
    } else {
        s.subrange(b * BLOCK, s.len() as int)
    }
}

/// One level of the hierarchy: the totals of the blocks of `s`, in order.
pub open spec fn level<T: Summand>(s: Seq<T>, kernel: BlockKernel) -> Seq<T> {
    Seq::new(block_count(s.len()), |b: int| block_total(block(s, b), kernel))
}

/// What the hierarchical strategies return: a sequence shorter than the
/// threshold is summed as [`chunked_total`]; a longer one is replaced by its
/// [`level`], again and again, until it is shorter.
pub open spec fn fold_total<T: Summand>(s: Seq<T>, kernel: BlockKernel) -> T
    decreases s.len(),
{
    if s.len() < THRESHOLD {
        chunked_total(s)
    } else {
        fold_total(level(s, kernel), kernel)
    }
}

} // verus!
