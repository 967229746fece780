//! Ranking by a key: largest first, and among equal keys the one that was
//! listed first.
use vstd::prelude::*;

verus! {

/// Whether the item at `a` ranks before the item at `b`: its key is larger,
/// or the keys are equal and it was listed earlier.
pub open spec fn ranks_before(keys: Seq<i64>, a: int, b: int) -> bool {
    keys[a] > keys[b] || (keys[a] == keys[b] && a < b)
}

/// Whether `order` names the item at `k`.
pub open spec fn names(order: Seq<usize>, k: int) -> bool {
    exists|i: int| 0 <= i < order.len() && #[trigger] order[i] == k
}

/// Whether `order` ranks the items with the given keys: it names every item
/// once, each before all those that it ranks before.
pub open spec fn is_ranking(keys: Seq<i64>, order: Seq<usize>) -> bool {
    &&& order.len() == keys.len()
    &&& forall|i: int| 0 <= i < order.len() ==> 0 <= #[trigger] order[i] < keys.len()
    &&& forall|k: int| 0 <= k < keys.len() ==> #[trigger] names(order, k)
    &&& forall|i: int, j: int|
        0 <= i < j < order.len() ==> ranks_before(keys, #[trigger] order[i] as int, #[trigger] order[j] as int)
}

/// The ranking of the items with the given keys.
pub open spec fn ranking_of(keys: Seq<i64>) -> Seq<usize> {
    choose|order: Seq<usize>| is_ranking(keys, order)
}

/// There is one ranking only: two orders that both rank the same keys are
/// the same order.
pub proof fn lemma_ranking_unique(keys: Seq<i64>, a: Seq<usize>, b: Seq<usize>)
    requires
        is_ranking(keys, a),
        is_ranking(keys, b),
    ensures
        a == b,
{
    assert forall|i: int| 0 <= i < a.len() implies a[i] == b[i] by {
        lemma_same_up_to(keys, a, b, i);
    }
    assert(a =~= b);
}

/// Two rankings of the same keys agree at every place, shown place by
/// place from the first.
proof fn lemma_same_up_to(keys: Seq<i64>, a: Seq<usize>, b: Seq<usize>, i: int)
    requires
        is_ranking(keys, a),
        is_ranking(keys, b),
        0 <= i < a.len(),
    ensures
        a[i] == b[i],
    decreases i,
{
    assert forall|h: int| 0 <= h < i implies a[h] == b[h] by {
        lemma_same_up_to(keys, a, b, h);
    }
    if a[i] != b[i] {
        let x = a[i] as int;
        let y = b[i] as int;
        assert(names(b, x));
        assert(names(a, y));
        let j = choose|j: int| 0 <= j < b.len() && b[j] == x;
        let k = choose|k: int| 0 <= k < a.len() && a[k] == y;
        if j < i {
            assert(a[j] == b[j]);
            assert(ranks_before(keys, a[j] as int, a[i] as int));
        }
        if k < i {
            assert(b[k] == a[k]);
            assert(ranks_before(keys, b[k] as int, b[i] as int));
        }
        assert(ranks_before(keys, b[i] as int, b[j] as int));
        assert(ranks_before(keys, a[i] as int, a[k] as int));
    }
}

/// Putting the next item into a ranking of those before it: behind every
/// item with a key that is not smaller, before every item with a smaller
/// key.
proof fn lemma_insert_ranks(keys: Seq<i64>, m: int, before: Seq<usize>, pos: int)
    requires
        0 <= m < keys.len(),
        m <= usize::MAX,
        is_ranking(keys.take(m), before),
        0 <= pos <= before.len(),
        forall|j: int| pos <= j < before.len() ==> keys[#[trigger] before[j] as int] < keys[m],
        pos > 0 ==> keys[before[pos - 1] as int] >= keys[m],
    ensures
        is_ranking(keys.take(m + 1), before.insert(pos, m as usize)),
{
    let old_keys = keys.take(m);
    let new_keys = keys.take(m + 1);
    let after = before.insert(pos, m as usize);
    assert forall|i: int| 0 <= i < after.len() implies 0 <= #[trigger] after[i] < new_keys.len() by {
        if i < pos {
            assert(after[i] == before[i]);
        } else if i > pos {
            assert(after[i] == before[i - 1]);
        }
    }
    assert forall|k: int| 0 <= k < new_keys.len() implies #[trigger] names(after, k) by {
        if k == m {
            assert(after[pos] == k);
        } else {
            assert(names(before, k));
            let i0 = choose|i: int| 0 <= i < before.len() && before[i] == k;
            if i0 < pos {
                assert(after[i0] == k);
            } else {
                assert(after[i0 + 1] == k);
            }
        }
    }
    assert forall|i: int, j: int| 0 <= i < j < after.len() implies ranks_before(
        new_keys,
        #[trigger] after[i] as int,
        #[trigger] after[j] as int,
    ) by {
        let bi = if i < pos {
            i
        } else {
            i - 1
        };
        let bj = if j < pos {
            j
        } else {
            j - 1
        };
        if i != pos && j != pos {
            assert(after[i] == before[bi]);
            assert(after[j] == before[bj]);
            assert(ranks_before(old_keys, before[bi] as int, before[bj] as int));
        } else if i == pos {
            assert(after[j] == before[bj]);
            assert(keys[before[bj] as int] < keys[m]);
        } else {
            assert(after[i] == before[bi]);
            assert(0 <= before[bi] < m);
            if bi < pos - 1 {
                assert(ranks_before(old_keys, before[bi] as int, before[pos - 1] as int));
            }
        }
    }
}

/// Where the item with the key `key` goes into the ranking `before`, looked
/// for from position `pos` down.
spec fn insertion_point(keys: Seq<i64>, before: Seq<usize>, key: i64, pos: int) -> int
    decreases pos,
{
    if pos > 0 && keys[before[pos - 1] as int] < key {
        insertion_point(keys, before, key, pos - 1)
    } else {
        pos
    }
}

/// Where the next item goes, no smaller key stands before it and only
/// smaller keys stand from there on.
proof fn lemma_insertion_point(keys: Seq<i64>, before: Seq<usize>, key: i64, pos: int)
    requires
        0 <= pos <= before.len(),
        forall|j: int| pos <= j < before.len() ==> keys[#[trigger] before[j] as int] < key,
    ensures
        0 <= insertion_point(keys, before, key, pos) <= pos,
        forall|j: int|
            insertion_point(keys, before, key, pos) <= j < before.len() ==> keys[#[trigger] before[j] as int]
                < key,
        insertion_point(keys, before, key, pos) > 0 ==> keys[before[insertion_point(
            keys,
            before,
            key,
            pos,
        ) - 1] as int] >= key,
    decreases pos,
{
    if pos > 0 && keys[before[pos - 1] as int] < key {
        lemma_insertion_point(keys, before, key, pos - 1);
    }
}

/// Every list of keys has a ranking.
pub proof fn lemma_ranking_exists(keys: Seq<i64>)
    requires
        keys.len() <= usize::MAX,
    ensures
        is_ranking(keys, ranking_of(keys)),
    decreases keys.len(),
{
    if keys.len() == 0 {
        assert(is_ranking(keys, Seq::<usize>::empty()));
    } else {
        let m = keys.len() - 1;
        let front = keys.take(m);
        lemma_ranking_exists(front);
        let before = ranking_of(front);
        let pos = insertion_point(keys, before, keys[m], before.len() as int);
        lemma_insertion_point(keys, before, keys[m], before.len() as int);
        lemma_insert_ranks(keys, m, before, pos);
        assert(keys.take(m + 1) =~= keys);
        assert(is_ranking(keys, before.insert(pos, m as usize)));
    }
}

/// In a ranking, the position at which the next item goes is the only one
/// that has no smaller key before it and only smaller keys from it on.
proof fn lemma_insertion_point_unique(keys: Seq<i64>, before: Seq<usize>, key: i64, pos: int)
    requires
        0 <= pos <= before.len(),
        forall|j: int| pos <= j < before.len() ==> keys[#[trigger] before[j] as int] < key,
        pos > 0 ==> keys[before[pos - 1] as int] >= key,
    ensures
        insertion_point(keys, before, key, before.len() as int) == pos,
{
    lemma_insertion_point(keys, before, key, before.len() as int);
    let found = insertion_point(keys, before, key, before.len() as int);
    if found < pos {
        assert(keys[before[pos - 1] as int] < key);
    } else if found > pos {
        assert(keys[before[found - 1] as int] < key);
    }
}

/// Ranks the items with the given keys, and returns the first `limit`
/// places of the ranking, or all of it where it has fewer.
pub fn rank_top(keys: &Vec<i64>, limit: usize) -> (order: Vec<usize>)
    ensures
        order@ == ranking_of(keys@).take(
            if limit <= keys@.len() {
                limit as int
            } else {
                keys@.len() as int
            },
        ),
        is_ranking(keys@, ranking_of(keys@)),
{
    let mut order: Vec<usize> = Vec::new();
    let ghost mut full: Seq<usize> = Seq::empty();
    let mut m: usize = 0;
    while m < keys.len()
        invariant
            m <= keys.len(),
            is_ranking(keys@.take(m as int), full),
            order@ == full.take(
                if limit <= m {
                    limit as int
                } else {
                    m as int
                },
            ),
        decreases keys.len() - m,
    {
        let key = keys[m];
        let mut pos: usize = order.len();
        while pos > 0 && keys[order[pos - 1]] < key
            invariant
                pos <= order.len(),
                m < keys.len(),
                key == keys@[m as int],
                is_ranking(keys@.take(m as int), full),
                order@.len() <= full.len(),
                order@ == full.take(order@.len() as int),
                forall|j: int| pos <= j < order.len() ==> keys@[#[trigger] order@[j] as int] < key,
            decreases pos,
        {
            pos -= 1;
        }
        let ghost shown = order@;
        let ghost at = insertion_point(keys@, full, key, full.len() as int);
        proof {
            lemma_insertion_point(keys@, full, key, full.len() as int);
            if pos < shown.len() || shown.len() == full.len() {
                assert forall|j: int| pos <= j < full.len() implies keys@[#[trigger] full[j] as int]
                    < key by {
                    if j >= shown.len() {
                        assert(full[pos as int] == shown[pos as int]);
                        assert(ranks_before(
                            keys@.take(m as int),
                            full[pos as int] as int,
                            full[j] as int,
                        ));
                    } else {
                        assert(full[j] == shown[j]);
                    }
                }
                if pos > 0 {
                    assert(full[pos - 1] == shown[pos - 1]);
                }
                lemma_insertion_point_unique(keys@, full, key, pos as int);
            } else if at < shown.len() {
                assert(full[shown.len() - 1] == shown[shown.len() - 1]);
                assert(keys@[full[shown.len() - 1] as int] < key);
            }
            lemma_insert_ranks(keys@, m as int, full, at);
        }
        if pos < limit {
            order.insert(pos, m);
            if order.len() > limit {
                order.truncate(limit);
            }
        }
        proof {
            let longer = full.insert(at, m);
            let k: int = if limit <= m + 1 {
                limit as int
            } else {
                m + 1
            };
            assert(order@ =~= longer.take(k));
            full = longer;
        }
        m += 1;
    }
    proof {
        assert(keys@.take(m as int) =~= keys@);
        lemma_ranking_unique(keys@, full, ranking_of(keys@));
    }
    order
}

/// Ranks the items with the given keys.
pub fn rank(keys: &Vec<i64>) -> (order: Vec<usize>)
    ensures
        is_ranking(keys@, order@),
        order@ == ranking_of(keys@),
{
    let order = rank_top(keys, keys.len());
    proof {
        let all = ranking_of(keys@);
        assert(all.take(keys@.len() as int) =~= all);
    }
    order
}

} // verus!
