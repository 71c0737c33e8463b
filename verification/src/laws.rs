//! What holds of every strategy, whatever the addition: nothing sums to
//! zero, a single element to itself, and the same elements to the same total.

use vstd::prelude::*;
use crate::summand::Summand;
use crate::model::{
    accumulate, sequential_sum, lane_totals, remainder, fold_halves, tree_sum, merge_rest,
    chunked_total, wide_total0, wide_total1, wide_total2, fold_total,
};
use crate::hierarchy::BlockKernel;

verus! {

/// Every element of `s` is zero.
spec fn all_zero<T: Summand>(s: Seq<T>) -> bool {
    forall|i: int| 0 <= i < s.len() ==> s[i] == T::spec_zero()
}

/// `s` starts with `x`, and every other element is zero.
spec fn lone<T: Summand>(s: Seq<T>, x: T) -> bool {
    &&& s.len() >= 1
    &&& s[0] == x
    &&& forall|i: int| 1 <= i < s.len() ==> s[i] == T::spec_zero()
}

/// Zeros added to `init` leave it as it is.
proof fn lemma_accumulate_zeros<T: Summand>(init: T, s: Seq<T>)
    requires
        init.spec_plus(T::spec_zero()) == init,
        all_zero(s),
    ensures
        accumulate(init, s) == init,
    decreases s.len(),
{
    if s.len() > 0 {
        lemma_accumulate_zeros(init, s.drop_last());
    }
}

/// A tree over zeros is zero.
proof fn lemma_tree_zeros<T: Summand>(s: Seq<T>)
    requires
        T::spec_zero().spec_plus(T::spec_zero()) == T::spec_zero(),
        all_zero(s),
    ensures
        tree_sum(s) == T::spec_zero(),
    decreases s.len(),
{
    if s.len() >= 2 {
        lemma_tree_zeros(fold_halves(s));
    }
}

/// A tree over `x` and zeros is `x`.
proof fn lemma_tree_lone<T: Summand>(s: Seq<T>, x: T)
    requires
        T::spec_zero().spec_plus(T::spec_zero()) == T::spec_zero(),
        x.spec_plus(T::spec_zero()) == x,
        lone(s, x),
    ensures
        tree_sum(s) == x,
    decreases s.len(),
{
    if s.len() >= 2 {
        lemma_tree_lone(fold_halves(s), x);
    }
}

/// No strategy makes anything but zero of an empty input, where zero added
/// to zero is zero.
pub proof fn lemma_empty_input<T: Summand>()
    requires
        T::spec_zero().spec_plus(T::spec_zero()) == T::spec_zero(),
    ensures
        sequential_sum(Seq::<T>::empty()) == T::spec_zero(),
        chunked_total(Seq::<T>::empty()) == T::spec_zero(),
        wide_total0(Seq::<T>::empty()) == T::spec_zero(),
        wide_total1(Seq::<T>::empty()) == T::spec_zero(),
        wide_total2(Seq::<T>::empty()) == T::spec_zero(),
        fold_total(Seq::<T>::empty(), BlockKernel::Chunked) == T::spec_zero(),
        fold_total(Seq::<T>::empty(), BlockKernel::Expanded) == T::spec_zero(),
{
    let s = Seq::<T>::empty();
    let wide = lane_totals(s, 16);
    let eight = fold_halves(wide);
    let four = fold_halves(eight);
    let rest = remainder(s, 16);
    assert(all_zero(wide));
    assert(all_zero(eight));
    assert(all_zero(four));
    assert(merge_rest(eight, rest) == eight);
    lemma_tree_zeros(eight);
    lemma_accumulate_zeros(T::spec_zero(), wide.skip(1));
    lemma_accumulate_zeros(T::spec_zero(), eight.skip(1));
    lemma_accumulate_zeros(T::spec_zero(), four.skip(1));
}

/// Every strategy returns a single element as it is, where zero added to it
/// on either side leaves it unchanged and zero added to zero is zero.
pub proof fn lemma_single_input<T: Summand>(x: T)
    requires
        T::spec_zero().spec_plus(T::spec_zero()) == T::spec_zero(),
        T::spec_zero().spec_plus(x) == x,
        x.spec_plus(T::spec_zero()) == x,
    ensures
        sequential_sum(seq![x]) == x,
        chunked_total(seq![x]) == x,
        wide_total0(seq![x]) == x,
        wide_total1(seq![x]) == x,
        wide_total2(seq![x]) == x,
        fold_total(seq![x], BlockKernel::Chunked) == x,
        fold_total(seq![x], BlockKernel::Expanded) == x,
{
    let s = seq![x];
    let wide = lane_totals(s, 16);
    let eight = fold_halves(wide);
    let four = fold_halves(eight);
    let rest = remainder(s, 16);
    assert(rest == s);
    assert(sequential_sum(s) == x) by {
        reveal_with_fuel(accumulate, 2);
    }
    assert(all_zero(wide));
    assert(all_zero(eight));
    assert(all_zero(four));
    assert(lone(merge_rest(eight, rest), x));
    lemma_tree_lone(merge_rest(eight, rest), x);
    lemma_accumulate_zeros(x, wide);
    lemma_accumulate_zeros(x, eight);
    lemma_accumulate_zeros(x, four);
}

/// Every strategy's result is determined by the elements of its input and
/// their order: two inputs that agree element by element have the same total,
/// so that a second run returns what the first returned.
pub proof fn lemma_same_elements_same_total<T: Summand>(a: Seq<T>, b: Seq<T>)
    requires
        a.len() == b.len(),
        forall|i: int| 0 <= i < a.len() ==> a[i] == b[i],
    ensures
        sequential_sum(a) == sequential_sum(b),
        chunked_total(a) == chunked_total(b),
        wide_total0(a) == wide_total0(b),
        wide_total1(a) == wide_total1(b),
        wide_total2(a) == wide_total2(b),
        fold_total(a, BlockKernel::Chunked) == fold_total(b, BlockKernel::Chunked),
        fold_total(a, BlockKernel::Expanded) == fold_total(b, BlockKernel::Expanded),
{
    assert(a =~= b);
}

} // verus!
