//! Summation strategies over any additive structure, each proved to combine
//! its input in one fixed, documented order.
//!
//! The strategies take a slice of [`Summand`] values and return their sum.
//! Where addition rounds, as it does on floats, they may differ in the last
//! bits; [`model`] says for each in which order it adds, [`laws`] what holds
//! of all of them, and [`exact`] that they agree where addition is exact.

pub mod summand;
pub mod model;
pub mod sequential;
pub mod lanes;
pub mod flat;
pub mod hierarchy;
pub mod laws;
pub mod exact;

pub use summand::Summand;
pub use sequential::{for_sum, iter_sum};
pub use lanes::{lane_sums, sum_8_to_1};
pub use flat::{
    chunked_reduce, chunked_sum, rest_after_groups, wide_sum_fold0, wide_sum_fold1,
    wide_sum_fold2, LANES,
};
pub use hierarchy::{expanded_fold_sum, fold_sum, BlockKernel, BLOCK, THRESHOLD};
