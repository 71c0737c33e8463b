use sums::{
    chunked_reduce, chunked_sum, expanded_fold_sum, fold_sum, for_sum, iter_sum, lane_sums,
    rest_after_groups, sum_8_to_1, wide_sum_fold0, wide_sum_fold1, wide_sum_fold2, BLOCK, LANES,
    THRESHOLD,
};

const NAMES: [&str; 8] = [
    "for_sum",
    "iter_sum",
    "chunked_sum",
    "wide_sum_fold0",
    "wide_sum_fold1",
    "wide_sum_fold2",
    "fold_sum",
    "expanded_fold_sum",
];

fn every_strategy(values: &[u64]) -> [u64; 8] {
    [
        for_sum(values),
        iter_sum(values),
        chunked_sum(values),
        wide_sum_fold0(values),
        wide_sum_fold1(values),
        wide_sum_fold2(values),
        fold_sum(values),
        expanded_fold_sum(values),
    ]
}

fn pseudo_random(n: usize, seed: u64) -> Vec<u64> {
    let mut state = seed;
    (0..n)
        .map(|_| {
            state = state.wrapping_mul(6364136223846793005).wrapping_add(1442695040888963407);
            state
        })
        .collect()
}

#[test]
fn the_sizes_are_as_documented() {
    assert_eq!(LANES, 16);
    assert_eq!(BLOCK, 512);
    assert_eq!(THRESHOLD, 131_072);
}

#[test]
fn sums_of_integers_wrap_modulo_two_to_the_64() {
    for (i, total) in every_strategy(&[u64::MAX, 2, 3]).iter().enumerate() {
        assert_eq!(*total, 4, "{}", NAMES[i]);
    }
}

#[test]
fn nothing_sums_to_zero_and_one_element_to_itself() {
    for (i, total) in every_strategy(&[]).iter().enumerate() {
        assert_eq!(*total, 0, "{}", NAMES[i]);
    }
    for &x in &[0, 1, 77, u64::MAX] {
        for (i, total) in every_strategy(&[x]).iter().enumerate() {
            assert_eq!(*total, x, "{} of [{}]", NAMES[i], x);
        }
    }
}

#[test]
fn one_to_one_hundred_sums_to_5050() {
    let values: Vec<u64> = (1..=100).collect();
    for (i, total) in every_strategy(&values).iter().enumerate() {
        assert_eq!(*total, 5050, "{}", NAMES[i]);
    }
}

#[test]
fn exact_addition_makes_every_strategy_agree_to_the_bit() {
    let sizes = [
        0usize, 1, 2, 7, 8, 15, 16, 17, 31, 32, 33, 100, 511, 512, 513, 1024, 5000, 131_071,
        131_072, 131_073, 131_072 + 512, 131_072 + 511, 300_001,
    ];
    for &n in &sizes {
        let values = pseudo_random(n, 3 + n as u64);
        let expected = values.iter().fold(0u64, |a, &b| a.wrapping_add(b));
        for (i, total) in every_strategy(&values).iter().enumerate() {
            assert_eq!(*total, expected, "{} of {} elements", NAMES[i], n);
        }
    }
}

#[test]
fn constant_input_sums_to_the_product() {
    for &(n, v) in &[(1000usize, 3u64), (131_073, u64::MAX / 3), (200_000, 0x8000_0000_0000_0001)] {
        let expected = (n as u64).wrapping_mul(v);
        for (i, total) in every_strategy(&vec![v; n]).iter().enumerate() {
            assert_eq!(*total, expected, "{} of {} x {}", NAMES[i], n, v);
        }
    }
    assert_eq!(chunked_sum(&vec![7u64; 1000]), 7000);
}

#[test]
fn exact_addition_is_blind_to_reversal() {
    for &n in &[2usize, 17, 1000, 131_073] {
        let forward = pseudo_random(n, 5);
        let backward: Vec<u64> = forward.iter().rev().copied().collect();
        assert_eq!(every_strategy(&forward), every_strategy(&backward), "{} elements", n);
    }
}

#[test]
fn two_hundred_million_integers() {
    let n: u64 = 200_000_000;
    let values: Vec<u64> = (1..=n).rev().collect();
    for (i, total) in every_strategy(&values).iter().enumerate() {
        assert_eq!(*total, 20_000_000_100_000_000, "{}", NAMES[i]);
    }
}

#[test]
fn two_levels_with_a_short_last_block_on_each() {
    // 131072 complete blocks and one of 5 elements; then 256 complete blocks
    // and one that holds a single scalar.
    let n = 512 * 131_072 + 5;
    let values = pseudo_random(n, 1);
    let expected = values.iter().fold(0u64, |a, &b| a.wrapping_add(b));
    assert_eq!(fold_sum(&values), expected);
    assert_eq!(expanded_fold_sum(&values), expected);
}

#[test]
fn lanes_take_every_fourth_element() {
    let totals: [u64; 4] = lane_sums(&[1, 2, 3, 4, 5, 6, 7, 8, 9, 10, 11, 12, 13, 14]);
    // 13 and 14 fill no group and are left out.
    assert_eq!(totals, [1 + 5 + 9, 2 + 6 + 10, 3 + 7 + 11, 4 + 8 + 12]);
}

#[test]
fn lanes_of_a_short_input_stay_at_zero() {
    let totals: [u64; 16] = lane_sums(&[1, 2, 3]);
    assert_eq!(totals, [0; 16]);
    let none: [u64; 0] = lane_sums(&[1, 2, 3]);
    assert_eq!(none.len(), 0);
    let single: [u64; 1] = lane_sums(&[1, 2, 3]);
    assert_eq!(single, [6]);
}

#[test]
fn chunked_reduce_hands_back_what_the_lanes_did_not_take() {
    let values: Vec<u64> = (1..=35).collect();
    let (rest, totals) = chunked_reduce(&values);
    assert_eq!(rest, &[33, 34, 35]);
    // Lane i holds (i + 1) + (i + 17); lane i is then folded with lane i + 8.
    assert_eq!(totals, [52, 56, 60, 64, 68, 72, 76, 80]);

    let (rest, totals) = chunked_reduce(&values[..32]);
    assert!(rest.is_empty());
    assert_eq!(totals, [52, 56, 60, 64, 68, 72, 76, 80]);

    let (rest, totals) = chunked_reduce(&values[..15]);
    assert_eq!(rest, &values[..15]);
    assert_eq!(totals, [0; 8]);
}

#[test]
fn eight_lanes_sum_to_one() {
    assert_eq!(sum_8_to_1(&[1u64, 2, 3, 4, 5, 6, 7, 8]), 36);
    assert_eq!(sum_8_to_1(&[u64::MAX, 1, 0, 0, 0, 0, 0, 5]), 5);
}

#[test]
fn the_rest_is_what_fills_no_group() {
    let values: [u64; 7] = [1, 2, 3, 4, 5, 6, 7];
    assert_eq!(rest_after_groups(&values, 3), &[7]);
    assert_eq!(rest_after_groups(&values, 7), &[] as &[u64]);
    assert_eq!(rest_after_groups(&values, 8), &values);
    assert_eq!(rest_after_groups(&values, 1), &[] as &[u64]);
    // With no lane at all, every element is left over.
    assert_eq!(rest_after_groups(&values, 0), &values);
}
