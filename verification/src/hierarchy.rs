//! The hierarchical strategies: a long input is cut into blocks, each block
//! is reduced to one scalar, and the scalars are reduced in turn, level by
//! level, until few enough are left for a single pass.

use vstd::prelude::*;
use crate::summand::Summand;
use crate::model::{
    lane_totals, fold_halves, chunked_total, expanded_block_total, block_total, block_count,
    block, level, fold_total,
};
use crate::lanes::{lane_sums, fold_lanes, sum_8_to_1};
use crate::flat::{chunked_sum, LANES};

verus! {

/// The number of elements that one block holds.
pub const BLOCK: usize = 512;

/// The length from which an input is reduced level by level.
pub const THRESHOLD: usize = BLOCK * BLOCK / 2;

/// The way a complete block is reduced to its eight lane totals.
#[derive(Clone, Copy, Debug, PartialEq, Eq)]
pub enum BlockKernel {
    /// Sixteen lanes over the block, folded once to eight.
    Chunked,
    /// 128 lanes over the block, dealt out again to 32 lanes, and those to 8.
    Expanded,
}

/// The chunked kernel: sixteen lanes over the block, folded once to eight. A
/// block is a multiple of sixteen long, so no element is left over.
fn chunked_reduce_512_to_8<T: Summand>(block: &[T]) -> (totals: [T; 8])
    requires
        block@.len() == BLOCK,
    ensures
        totals@ == fold_halves(lane_totals(block@, 16)),
{
    let wide: [T; 16] = lane_sums::<T, LANES>(block);
    fold_lanes::<T, LANES, 8>(&wide)
}

/// Reduces one complete block to a scalar by the chunked kernel and the tree
/// combinator.
fn chunked_sum_512_to_1<T: Summand>(block: &[T]) -> (total: T)
    requires
        block@.len() == BLOCK,
    ensures
        total == chunked_total(block@),
{
    let totals = chunked_reduce_512_to_8(block);
    sum_8_to_1(&totals)
}

/// The expanded kernel: 128 lanes over the block, four elements each; the 128
/// totals dealt out to 32 lanes; the 32 totals dealt out to 8 lanes.
fn expanded_reduce_512_to_8<T: Summand>(block: &[T]) -> (totals: [T; 8])
    requires
        block@.len() == BLOCK,
    ensures
        totals@ == lane_totals(lane_totals(lane_totals(block@, 128), 32), 8),
{
    let first: [T; 128] = lane_sums::<T, 128>(block);
    let second: [T; 32] = lane_sums::<T, 32>(first.as_slice());
    lane_sums::<T, 8>(second.as_slice())
}

/// Reduces one complete block to a scalar by the expanded kernel and the tree
/// combinator.
fn expanded_sum_512_to_1<T: Summand>(block: &[T]) -> (total: T)
    requires
        block@.len() == BLOCK,
    ensures
        total == expanded_block_total(block@),
{
    let totals = expanded_reduce_512_to_8(block);
    sum_8_to_1(&totals)
}

/// The number of blocks that `len` elements are cut into.
fn blocks_needed(len: usize) -> (count: usize)
    ensures
        count == block_count(len as nat),
{
    if len % BLOCK == 0 {
        len / BLOCK
    } else {
        len / BLOCK + 1
    }
}

/// Replaces the contents of `target` by the next level of `source`: one
/// scalar for each complete block, by `kernel`, and one for the shorter block
/// at the end, if there is one, by [`chunked_sum`].
fn reduce_level<T: Summand>(source: &[T], target: &mut Vec<T>, kernel: BlockKernel)
    ensures
        final(target)@ == level(source@, kernel),
{
    target.clear();
    let len = source.len();
    let complete = len / BLOCK;
    let mut b: usize = 0;
    while b < complete
        invariant
            len == source@.len(),
            complete == len / BLOCK,
            b <= complete,
            target@.len() == b,
            forall|j: int| 0 <= j < b ==> target@[j] == block_total(block(source@, j), kernel),
        decreases complete - b,
    {
        let piece = &source[b * BLOCK..(b + 1) * BLOCK];
        let total = match kernel {
            BlockKernel::Chunked => chunked_sum_512_to_1(piece),
            BlockKernel::Expanded => expanded_sum_512_to_1(piece),
        };
        target.push(total);
        b += 1;
    }
    if complete * BLOCK < len {
        let piece = &source[complete * BLOCK..len];
        target.push(chunked_sum(piece));
    }
}

/// Reduces `values` level by level, between two buffers that change roles
/// after each level, and sums the last level in a single pass.
fn hierarchical_sum<T: Summand>(values: &[T], kernel: BlockKernel) -> (total: T)
    ensures
        total == fold_total(values@, kernel),
{
    let len = values.len();
    if len < THRESHOLD {
        return chunked_sum(values);
    }
    let capacity_current = blocks_needed(len);
    let mut buffer_current: Vec<T> = Vec::with_capacity(capacity_current);
    let capacity_next = blocks_needed(capacity_current);
    let mut buffer_next: Vec<T> = Vec::with_capacity(capacity_next);

    reduce_level(values, &mut buffer_current, kernel);
    while buffer_current.len() >= THRESHOLD
        invariant
            fold_total(buffer_current@, kernel) == fold_total(values@, kernel),
        decreases buffer_current@.len(),
    {
        reduce_level(buffer_current.as_slice(), &mut buffer_next, kernel);
        std::mem::swap(&mut buffer_current, &mut buffer_next);
    }
    chunked_sum(buffer_current.as_slice())
}

/// Sums `values` by the block hierarchy, each complete block reduced over
/// sixteen lanes folded once to eight.
pub fn fold_sum<T: Summand>(values: &[T]) -> (total: T)
    ensures
        total == fold_total(values@, BlockKernel::Chunked),
{
    hierarchical_sum(values, BlockKernel::Chunked)
}

/// Sums `values` by the block hierarchy, each complete block reduced in
/// three stages of 128, 32 and 8 lanes.
pub fn expanded_fold_sum<T: Summand>(values: &[T]) -> (total: T)
    ensures
        total == fold_total(values@, BlockKernel::Expanded),
{
    hierarchical_sum(values, BlockKernel::Expanded)
}

} // verus!
