//! The order of the hits of a search.
use crate::model::Hit;
use vstd::prelude::*;

verus! {

/// Where a new item of the given key goes in an order of items: behind all that are at least
/// as great, from place `i` on.
pub open spec fn place_for(order: Seq<int>, keys: Seq<u64>, key: u64, i: int) -> int
    decreases order.len() - i,
{
    if i >= order.len() || keys[order[i]] < key {
        i
    } else {
        place_for(order, keys, key, i + 1)
    }
}

/// The first `n` items, the greatest key first, and items of the same key in the order in
/// which they came.
pub open spec fn ranked(keys: Seq<u64>, n: int) -> Seq<int>
    decreases n,
{
    if n <= 0 {
        Seq::empty()
    } else {
        let before = ranked(keys, n - 1);
        before.insert(place_for(before, keys, keys[n - 1], 0), n - 1)
    }
}

/// The items in an order.
pub open spec fn arranged<T>(items: Seq<T>, order: Seq<int>) -> Seq<T> {
    Seq::new(order.len(), |i: int| items[order[i]])
}

/// Whether one item stands before another: its key is greater, or the same and it came first.
pub open spec fn stands_before(keys: Seq<u64>, a: int, b: int) -> bool {
    keys[a] > keys[b] || keys[a] == keys[b] && a < b
}

/// What an order of places stands for.
pub open spec fn places(v: Seq<usize>) -> Seq<int> {
    Seq::new(v.len(), |i: int| v[i] as int)
}

proof fn lemma_place(order: Seq<int>, keys: Seq<u64>, key: u64, i: int)
    requires
        0 <= i <= order.len(),
    ensures
        i <= place_for(order, keys, key, i) <= order.len(),
        forall|j: int|
            i <= j < place_for(order, keys, key, i) ==> keys[#[trigger] order[j]] >= key,
        place_for(order, keys, key, i) < order.len() ==> keys[order[place_for(
            order,
            keys,
            key,
            i,
        )]] < key,
    decreases order.len() - i,
{
    if i < order.len() && keys[order[i]] >= key {
        lemma_place(order, keys, key, i + 1);
    }
}

proof fn lemma_ranked(keys: Seq<u64>, n: int)
    requires
        0 <= n <= keys.len(),
    ensures
        ranked(keys, n).len() == n,
        forall|i: int| 0 <= i < n ==> 0 <= #[trigger] ranked(keys, n)[i] < n,
        forall|i: int, j: int|
            0 <= i < j < n ==> stands_before(
                keys,
                #[trigger] ranked(keys, n)[i],
                #[trigger] ranked(keys, n)[j],
            ),
    decreases n,
{
    if n > 0 {
        lemma_ranked(keys, n - 1);
        let before = ranked(keys, n - 1);
        let key = keys[n - 1];
        lemma_place(before, keys, key, 0);
        let p = place_for(before, keys, key, 0);
        let r = ranked(keys, n);
        assert(r == before.insert(p, n - 1));
        assert forall|i: int, j: int| 0 <= i < j < n implies stands_before(
            keys,
            #[trigger] r[i],
            #[trigger] r[j],
        ) by {
            if j < p {
                assert(r[i] == before[i] && r[j] == before[j]);
            } else if j == p {
                assert(r[i] == before[i]);
            } else if i == p {
                assert(r[j] == before[j - 1]);
                if j - 1 > p {
                    assert(stands_before(keys, before[p], before[j - 1]));
                }
            } else if i < p {
                assert(r[i] == before[i] && r[j] == before[j - 1]);
            } else {
                assert(r[i] == before[i - 1] && r[j] == before[j - 1]);
            }
        }
    }
}

/// The hits, the greatest key first, and hits of the same key in the order in which they came.
/// The keys stand for the scores, with what earlier clicks add to them.
pub fn rank_hits<S: Copy>(hits: &Vec<Hit<S>>, keys: &Vec<u64>) -> (r: Vec<Hit<S>>)
    requires
        hits@.len() == keys@.len(),
    ensures
        r@ == arranged(hits@, ranked(keys@, keys@.len() as int)),
{
    let mut order: Vec<usize> = Vec::new();
    for i in 0..keys.len()
        invariant
            places(order@) == ranked(keys@, i as int),
            order@.len() == i,
            forall|j: int| 0 <= j < i ==> #[trigger] order@[j] < i,
    {
        let mut p: usize = 0;
        while p < order.len() && keys[order[p]] >= keys[i]
            invariant
                i < keys@.len(),
                p <= order@.len(),
                order@.len() == i,
                forall|j: int| 0 <= j < i ==> #[trigger] order@[j] < i,
                places(order@) == ranked(keys@, i as int),
                place_for(places(order@), keys@, keys@[i as int], 0) == place_for(
                    places(order@),
                    keys@,
                    keys@[i as int],
                    p as int,
                ),
            decreases order.len() - p,
        {
            p = p + 1;
        }
        let ghost before = order@;
        order.insert(p, i);
        assert(places(order@) =~= places(before).insert(p as int, i as int));
    }
    let mut r: Vec<Hit<S>> = Vec::new();
    for i in 0..order.len()
        invariant
            hits@.len() == keys@.len(),
            order@.len() == keys@.len(),
            places(order@) == ranked(keys@, keys@.len() as int),
            forall|j: int| 0 <= j < order@.len() ==> #[trigger] order@[j] < hits@.len(),
            r@ =~= arranged(hits@, places(order@)).take(i as int),
    {
        r.push(hits[order[i]].clone());
    }
    assert(r@ =~= arranged(hits@, ranked(keys@, keys@.len() as int)));
    r
}

/// Every hit is there once, the greatest key comes first, and hits of the same key keep their
/// order.
pub proof fn law_ranked(keys: Seq<u64>)
    ensures
        ranked(keys, keys.len() as int).len() == keys.len(),
        ranked(keys, keys.len() as int).no_duplicates(),
        forall|i: int| 0 <= i < keys.len() ==> 0 <= #[trigger] ranked(keys, keys.len() as int)[i]
            < keys.len(),
        forall|i: int, j: int|
            0 <= i < j < keys.len() ==> stands_before(
                keys,
                #[trigger] ranked(keys, keys.len() as int)[i],
                #[trigger] ranked(keys, keys.len() as int)[j],
            ),
{
    lemma_ranked(keys, keys.len() as int);
    let r = ranked(keys, keys.len() as int);
    assert forall|i: int, j: int| 0 <= i < r.len() && 0 <= j < r.len() && i != j implies r[i]
        != r[j] by {
        if i < j {
            assert(stands_before(keys, r[i], r[j]));
        } else {
            assert(stands_before(keys, r[j], r[i]));
        }
    }
}

/// Ranking keeps every hit: each stands in the ranked list, at exactly one place, and nothing
/// else does.
pub proof fn law_every_hit_is_ranked(keys: Seq<u64>, k: int)
    requires
        0 <= k < keys.len(),
    ensures
        exists|i: int|
            0 <= i < keys.len() && #[trigger] ranked(keys, keys.len() as int)[i] == k,
{
    lemma_ranked_has(keys, keys.len() as int, k);
    let r = ranked(keys, keys.len() as int);
    lemma_ranked(keys, keys.len() as int);
    let i = choose|i: int| 0 <= i < r.len() && r[i] == k;
    assert(r[i] == k);
}

proof fn lemma_ranked_has(keys: Seq<u64>, n: int, k: int)
    requires
        0 <= k < n <= keys.len(),
    ensures
        ranked(keys, n).contains(k),
    decreases n,
{
    let before = ranked(keys, n - 1);
    lemma_ranked(keys, n - 1);
    let p = place_for(before, keys, keys[n - 1], 0);
    lemma_place(before, keys, keys[n - 1], 0);
    let now = before.insert(p, n - 1);
    assert(now[p] == n - 1);
    if k < n - 1 {
        lemma_ranked_has(keys, n - 1, k);
        let i = choose|i: int| 0 <= i < before.len() && before[i] == k;
        if i < p {
            assert(now[i] == k);
        } else {
            assert(now[i + 1] == k);
        }
    }
}

/// The ranked list is in falling order of the keys, and hits of the same key keep their order.
pub proof fn law_ranked_hits<T>(items: Seq<T>, keys: Seq<u64>, i: int, j: int)
    requires
        items.len() == keys.len(),
        0 <= i < j < items.len(),
    ensures
        ({
            let order = ranked(keys, keys.len() as int);
            let r = arranged(items, order);
            &&& r.len() == items.len()
            &&& r[i] == items[order[i]] && r[j] == items[order[j]]
            &&& keys[order[i]] >= keys[order[j]]
            &&& keys[order[i]] == keys[order[j]] ==> order[i] < order[j]
        }),
{
    law_ranked(keys);
    let order = ranked(keys, keys.len() as int);
    assert(stands_before(keys, order[i], order[j]));
}

}
