use cluster_insights::ranking::{rank, rank_top};

fn by_stable_sort(keys: &[i64]) -> Vec<usize> {
    let mut order: Vec<usize> = (0..keys.len()).collect();
    order.sort_by(|&a, &b| keys[b].cmp(&keys[a]));
    order
}

#[test]
fn ranks_largest_first_and_equal_keys_as_listed() {
    assert_eq!(rank(&vec![]), Vec::<usize>::new());
    assert_eq!(rank(&vec![5]), [0]);
    assert_eq!(rank(&vec![1, 2, 3]), [2, 1, 0]);
    assert_eq!(rank(&vec![3, 2, 1]), [0, 1, 2]);
    assert_eq!(rank(&vec![7, 7, 7]), [0, 1, 2]);
    assert_eq!(rank(&vec![1, 3, 1, 3, 2]), [1, 3, 4, 0, 2]);
    assert_eq!(rank(&vec![i64::MIN, i64::MAX, 0, -1]), [1, 2, 3, 0]);
}

#[test]
fn top_places_are_the_start_of_the_ranking() {
    let keys = vec![4, 9, 4, 1, 9, 0, 7, 4];
    let all = rank(&keys);
    assert_eq!(all, [1, 4, 6, 0, 2, 7, 3, 5]);
    for limit in 0..12 {
        let top = rank_top(&keys, limit);
        assert_eq!(top, all[..limit.min(keys.len())], "limit {limit}");
    }
    assert_eq!(rank_top(&keys, usize::MAX), all);
}

#[test]
fn ranking_agrees_with_a_stable_sort() {
    let mut seed: u64 = 99;
    for round in 0..300 {
        let len = round % 40;
        let keys: Vec<i64> = (0..len)
            .map(|_| {
                seed = seed.wrapping_mul(6364136223846793005).wrapping_add(1442695040888963407);
                ((seed >> 33) % 9) as i64 - 4
            })
            .collect();
        let expected = by_stable_sort(&keys);
        assert_eq!(rank(&keys), expected);
        for limit in [0, 1, 3, 20, 39, 40, 41] {
            assert_eq!(rank_top(&keys, limit), expected[..limit.min(keys.len())]);
        }
    }
}
