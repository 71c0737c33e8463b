use sums::{
    chunked_sum, expanded_fold_sum, fold_sum, for_sum, iter_sum, lane_sums, sum_8_to_1,
    wide_sum_fold0, wide_sum_fold1, wide_sum_fold2, Summand,
};

/// A summand whose addition is neither associative nor commutative, and
/// whose zero is not neutral: any change in the order or the number of
/// additions changes the result.
#[derive(Clone, Copy, Debug, PartialEq, Eq)]
struct Mix(u64);

fn p(a: Mix, b: Mix) -> Mix {
    Mix(a.0.wrapping_mul(3).wrapping_add(b.0.wrapping_mul(5)).wrapping_add(1))
}

const Z: Mix = Mix(0);

impl Summand for Mix {
    fn spec_zero() -> Mix {
        Z
    }

    fn spec_plus(self, rhs: Mix) -> Mix {
        p(self, rhs)
    }

    fn zero() -> Mix {
        Z
    }

    fn plus(self, rhs: Mix) -> Mix {
        p(self, rhs)
    }
}

fn numbered(n: usize) -> Vec<Mix> {
    (0..n).map(|i| Mix(1000 + i as u64)).collect()
}

// The strategies once more, written plainly and without regard to speed.

fn chain(start: Mix, values: &[Mix]) -> Mix {
    values.iter().fold(start, |a, &b| p(a, b))
}

fn lanes(values: &[Mix], width: usize) -> Vec<Mix> {
    let groups = values.len() / width;
    (0..width)
        .map(|i| {
            let lane: Vec<Mix> = values.iter().skip(i).step_by(width).take(groups).copied().collect();
            chain(Z, &lane)
        })
        .collect()
}

fn leftover(values: &[Mix], width: usize) -> &[Mix] {
    &values[values.len() - values.len() % width..]
}

fn halved(values: &[Mix]) -> Vec<Mix> {
    let (low, high) = values.split_at(values.len() / 2);
    low.iter().zip(high).map(|(&a, &b)| p(a, b)).collect()
}

fn tree(values: &[Mix]) -> Mix {
    if values.len() == 1 {
        values[0]
    } else {
        tree(&halved(values))
    }
}

fn chunked(values: &[Mix]) -> Mix {
    let mut totals = halved(&lanes(values, 16));
    let rest = leftover(values, 16);
    if !rest.is_empty() {
        totals[0] = p(totals[0], chain(Z, rest));
    }
    tree(&totals)
}

fn wide(values: &[Mix], rounds: usize) -> Mix {
    let mut totals = lanes(values, 16);
    for _ in 0..rounds {
        totals = halved(&totals);
    }
    let rest = leftover(values, 16);
    if rest.is_empty() {
        chain(totals[0], &totals[1..])
    } else {
        chain(chain(Z, rest), &totals)
    }
}

fn expanded_block(block: &[Mix]) -> Mix {
    tree(&lanes(&lanes(&lanes(block, 128), 32), 8))
}

fn hierarchy(values: &[Mix], expanded: bool) -> Mix {
    let mut current = values.to_vec();
    while current.len() >= 131_072 {
        current = current
            .chunks(512)
            .map(|block| {
                if expanded && block.len() == 512 {
                    expanded_block(block)
                } else {
                    chunked(block)
                }
            })
            .collect();
    }
    chunked(&current)
}

#[test]
fn sequential_strategies_add_left_to_right_from_zero() {
    let v = numbered(3);
    let expected = p(p(p(Z, v[0]), v[1]), v[2]);
    assert_eq!(for_sum(&v), expected);
    assert_eq!(iter_sum(&v), expected);
    assert_eq!(for_sum::<Mix>(&[]), Z);
    assert_eq!(iter_sum::<Mix>(&[]), Z);
}

#[test]
fn each_lane_adds_its_elements_in_input_order() {
    let v = numbered(7);
    let totals: [Mix; 3] = lane_sums(&v);
    assert_eq!(
        totals,
        [p(p(Z, v[0]), v[3]), p(p(Z, v[1]), v[4]), p(p(Z, v[2]), v[5])]
    );
}

#[test]
fn the_tree_pairs_lane_i_with_lane_i_plus_half() {
    let s = numbered(8);
    let first = [p(s[0], s[4]), p(s[1], s[5]), p(s[2], s[6]), p(s[3], s[7])];
    let second = [p(first[0], first[2]), p(first[1], first[3])];
    let expected = p(second[0], second[1]);
    assert_eq!(sum_8_to_1(&[s[0], s[1], s[2], s[3], s[4], s[5], s[6], s[7]]), expected);
    assert_eq!(
        expected,
        p(p(p(s[0], s[4]), p(s[2], s[6])), p(p(s[1], s[5]), p(s[3], s[7])))
    );
}

#[test]
fn chunked_sum_adds_the_rest_to_lane_zero_before_the_tree() {
    // Sixteen elements fill one group; the last two are left over.
    let v = numbered(18);
    let lane = |i: usize| p(Z, v[i]);
    let mut eight: Vec<Mix> = (0..8).map(|i| p(lane(i), lane(i + 8))).collect();
    eight[0] = p(eight[0], p(p(Z, v[16]), v[17]));
    let expected = p(
        p(p(eight[0], eight[4]), p(eight[2], eight[6])),
        p(p(eight[1], eight[5]), p(eight[3], eight[7])),
    );
    assert_eq!(chunked_sum(&v), expected);
}

#[test]
fn chunked_sum_makes_no_addition_for_an_empty_rest() {
    let v = numbered(16);
    let lane = |i: usize| p(Z, v[i]);
    let eight: Vec<Mix> = (0..8).map(|i| p(lane(i), lane(i + 8))).collect();
    let expected = p(
        p(p(eight[0], eight[4]), p(eight[2], eight[6])),
        p(p(eight[1], eight[5]), p(eight[3], eight[7])),
    );
    assert_eq!(chunked_sum(&v), expected);
}

#[test]
fn wide_sums_chain_the_lanes_from_the_rest() {
    let v = numbered(17);
    let rest = p(Z, v[16]);
    let sixteen: Vec<Mix> = (0..16).map(|i| p(Z, v[i])).collect();
    let eight: Vec<Mix> = (0..8).map(|i| p(sixteen[i], sixteen[i + 8])).collect();
    let four: Vec<Mix> = (0..4).map(|i| p(eight[i], eight[i + 4])).collect();
    assert_eq!(wide_sum_fold0(&v), sixteen.iter().fold(rest, |a, &b| p(a, b)));
    assert_eq!(wide_sum_fold1(&v), eight.iter().fold(rest, |a, &b| p(a, b)));
    assert_eq!(
        wide_sum_fold2(&v),
        p(p(p(p(rest, four[0]), four[1]), four[2]), four[3])
    );
}

#[test]
fn wide_sums_chain_from_lane_zero_for_an_empty_rest() {
    let v = numbered(32);
    let sixteen: Vec<Mix> = (0..16).map(|i| p(p(Z, v[i]), v[i + 16])).collect();
    let eight: Vec<Mix> = (0..8).map(|i| p(sixteen[i], sixteen[i + 8])).collect();
    let four: Vec<Mix> = (0..4).map(|i| p(eight[i], eight[i + 4])).collect();
    assert_eq!(wide_sum_fold0(&v), sixteen[1..].iter().fold(sixteen[0], |a, &b| p(a, b)));
    assert_eq!(wide_sum_fold1(&v), eight[1..].iter().fold(eight[0], |a, &b| p(a, b)));
    assert_eq!(wide_sum_fold2(&v), p(p(p(four[0], four[1]), four[2]), four[3]));
}

#[test]
fn single_pass_strategies_keep_their_order_at_every_size() {
    let all = numbered(1100);
    for n in (0..=70).chain(500..=530).chain(1020..=1030) {
        let v = &all[..n];
        assert_eq!(for_sum(v), chain(Z, v), "for_sum of {}", n);
        assert_eq!(iter_sum(v), chain(Z, v), "iter_sum of {}", n);
        assert_eq!(chunked_sum(v), chunked(v), "chunked_sum of {}", n);
        assert_eq!(wide_sum_fold0(v), wide(v, 0), "wide_sum_fold0 of {}", n);
        assert_eq!(wide_sum_fold1(v), wide(v, 1), "wide_sum_fold1 of {}", n);
        assert_eq!(wide_sum_fold2(v), wide(v, 2), "wide_sum_fold2 of {}", n);
        assert_eq!(fold_sum(v), chunked(v), "fold_sum of {}", n);
        assert_eq!(expanded_fold_sum(v), chunked(v), "expanded_fold_sum of {}", n);
    }
}

#[test]
fn below_the_threshold_the_hierarchy_is_one_single_pass() {
    let v = numbered(131_071);
    assert_eq!(fold_sum(&v), chunked(&v));
    assert_eq!(expanded_fold_sum(&v), chunked(&v));
}

#[test]
fn from_the_threshold_on_blocks_are_reduced_first() {
    for &n in &[131_072usize, 131_073, 131_072 + 511, 131_072 + 512, 200_000] {
        let v = numbered(n);
        let blocks: Vec<Mix> = v.chunks(512).map(chunked).collect();
        assert_eq!(fold_sum(&v), chunked(&blocks), "fold_sum of {}", n);
        assert_eq!(fold_sum(&v), hierarchy(&v, false), "fold_sum of {}", n);
        assert_eq!(expanded_fold_sum(&v), hierarchy(&v, true), "expanded_fold_sum of {}", n);
        assert_ne!(fold_sum(&v), chunked(&v), "fold_sum of {}", n);
        assert_ne!(fold_sum(&v), expanded_fold_sum(&v), "the two kernels on {}", n);
    }
}

#[test]
fn a_long_input_goes_through_two_levels() {
    for &n in &[512 * 131_072usize, 512 * 131_072 + 700] {
        let v = numbered(n);
        let first: Vec<Mix> = v.chunks(512).map(chunked).collect();
        assert!(first.len() >= 131_072);
        let second: Vec<Mix> = first.chunks(512).map(chunked).collect();
        assert_eq!(fold_sum(&v), chunked(&second), "fold_sum of {}", n);
        assert_eq!(expanded_fold_sum(&v), hierarchy(&v, true), "expanded_fold_sum of {}", n);
    }
}

#[test]
fn two_hundred_million_elements_keep_their_order() {
    let v = numbered(200_000_000);
    assert_eq!(fold_sum(&v), hierarchy(&v, false));
}

#[test]
fn two_hundred_million_elements_keep_their_order_in_stages() {
    let v = numbered(200_000_000);
    assert_eq!(expanded_fold_sum(&v), hierarchy(&v, true));
}
