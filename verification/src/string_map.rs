//! A map keyed by strings whose keys can be listed.
use crate::text::{same, clone_strings};
use vstd::hash_map::StringHashMap;
use vstd::prelude::*;
use vstd::string::*;

verus! {

use crate::text::views;

/// A map from strings to values. Beside the table stands the list of its keys, each once.
#[verifier::reject_recursive_types(V)]
pub struct StringMap<V> {
    table: StringHashMap<V>,
    keys: Vec<String>,
}

impl<V> View for StringMap<V> {
    type V = Map<Seq<char>, V>;

    closed spec fn view(&self) -> Map<Seq<char>, V> {
        self.table@
    }
}

/// The map that pairs of a key and a value give, the later ones before the earlier ones.
pub open spec fn map_of<V>(pairs: Seq<(String, V)>) -> Map<Seq<char>, V>
    decreases pairs.len(),
{
    if pairs.len() == 0 {
        Map::empty()
    } else {
        map_of(pairs.drop_last()).insert(pairs.last().0@, pairs.last().1)
    }
}

impl<V: Copy> StringMap<V> {
    /// The list of keys holds every key of the table, and each once.
    pub closed spec fn wf(&self) -> bool {
        &&& views(self.keys@).no_duplicates()
        &&& forall|k: Seq<char>| #[trigger] self.table@.contains_key(k) <==> views(self.keys@).contains(k)
    }

    /// The map without entries.
    pub fn new() -> (r: Self)
        ensures
            r.wf(),
            r@ == Map::<Seq<char>, V>::empty(),
    {
        let r = StringMap { table: StringHashMap::new(), keys: Vec::new() };
        assert(views(r.keys@) =~= Seq::<Seq<char>>::empty());
        r
    }

    /// The value of a key.
    pub fn get(&self, k: &str) -> (r: Option<V>)
        requires
            self.wf(),
        ensures
            r == (if self@.contains_key(k@) {
                Some(self@[k@])
            } else {
                None
            }),
    {
        match self.table.get(k) {
            Some(v) => Some(*v),
            None => None,
        }
    }

    /// Gives a key a value.
    pub fn insert(&mut self, k: String, v: V)
        requires
            old(self).wf(),
        ensures
            final(self).wf(),
            final(self)@ == old(self)@.insert(k@, v),
    {
        let known = self.table.contains_key(k.as_str());
        let ghost before = views(self.keys@);
        let ghost key = k@;
        if !known {
            self.keys.push(k.clone());
        }
        self.table.insert(k, v);
        proof {
            if !known {
                assert(views(self.keys@) =~= before.push(key));
                assert(!before.contains(key));
            }
            assert forall|x: Seq<char>| #[trigger] self.table@.contains_key(x) <==> views(
                self.keys@,
            ).contains(x) by {
                if !known {
                    if before.contains(x) {
                        let i = choose|i: int| 0 <= i < before.len() && before[i] == x;
                        assert(before.push(key)[i] == x);
                    }
                    if x == key {
                        assert(before.push(key)[before.len() as int] == x);
                    }
                }
            }
        }
    }

    /// Removes a key.
    pub fn remove(&mut self, k: &str)
        requires
            old(self).wf(),
        ensures
            final(self).wf(),
            final(self)@ == old(self)@.remove(k@),
    {
        let ghost before = views(self.keys@);
        let ghost table = self.table@;
        let mut at: usize = 0;
        while at < self.keys.len() && !same(self.keys[at].as_str(), k)
            invariant
                at <= self.keys@.len(),
                views(self.keys@) == before,
                self.table@ == table,
                forall|j: int| 0 <= j < at ==> before[j] != k@,
            decreases self.keys.len() - at,
        {
            assert(before[at as int] == self.keys@[at as int]@);
            at = at + 1;
        }
        self.table.remove(k);
        if at < self.keys.len() {
            proof {
                assert(before[at as int] == self.keys@[at as int]@);
            }
            let _ = self.keys.remove(at);
            assert(views(self.keys@) =~= before.remove(at as int));
        }
        proof {
            let now = views(self.keys@);
            assert forall|x: Seq<char>| #[trigger] self.table@.contains_key(x) <==> now.contains(
                x,
            ) by {
                if at < before.len() {
                    if now.contains(x) {
                        let i = choose|i: int| 0 <= i < now.len() && now[i] == x;
                        let j = if i < at {
                            i
                        } else {
                            i + 1
                        };
                        assert(before[j] == x);
                        assert(x != k@);
                        assert(table.contains_key(x));
                    }
                    if before.contains(x) && x != k@ {
                        let i = choose|i: int| 0 <= i < before.len() && before[i] == x;
                        let j = if i < at {
                            i
                        } else {
                            i - 1
                        };
                        assert(now[j] == x);
                    }
                } else {
                    assert(!before.contains(k@));
                }
            }
            assert forall|i: int, j: int|
                0 <= i < now.len() && 0 <= j < now.len() && i != j implies now[i] != now[j] by {
                if at < before.len() {
                    let a = if i < at {
                        i
                    } else {
                        i + 1
                    };
                    let b = if j < at {
                        j
                    } else {
                        j + 1
                    };
                    assert(before[a] != before[b]);
                }
            }
        }
    }

    /// The number of keys.
    pub fn len(&self) -> (r: usize)
        requires
            self.wf(),
        ensures
            r == self@.dom().len(),
            self@.dom().finite(),
    {
        proof {
            let v = views(self.keys@);
            v.unique_seq_to_set();
            assert(v.to_set() =~= self@.dom());
        }
        self.keys.len()
    }

    /// The keys with their values, each once.
    pub fn pairs(&self) -> (r: Vec<(String, V)>)
        requires
            self.wf(),
        ensures
            map_of(r@) == self@,
            r@.len() == self@.dom().len(),
    {
        let ghost keys = views(self.keys@);
        let mut out: Vec<(String, V)> = Vec::new();
        let mut i: usize = 0;
        while i < self.keys.len()
            invariant
                self.wf(),
                keys == views(self.keys@),
                i <= self.keys@.len(),
                out@.len() == i,
                forall|k: Seq<char>| #[trigger]
                    map_of(out@).contains_key(k) <==> exists|j: int| 0 <= j < i && keys[j] == k,
                forall|k: Seq<char>| #[trigger]
                    map_of(out@).contains_key(k) ==> map_of(out@)[k] == self@[k],
            decreases self.keys@.len() - i,
        {
            let k = self.keys[i].clone();
            assert(keys[i as int] == k@);
            assert(keys.contains(k@));
            if let Some(v) = self.table.get(k.as_str()) {
                let ghost before = out@;
                let ghost key = k@;
                out.push((k, *v));
                assert(out@.drop_last() =~= before);
                assert forall|x: Seq<char>| #[trigger]
                    map_of(out@).contains_key(x) implies map_of(out@)[x] == self@[x] by {
                    if x != key {
                        assert(map_of(before).contains_key(x));
                    }
                }
                assert forall|x: Seq<char>| #[trigger]
                    map_of(out@).contains_key(x) <==> exists|j: int|
                        0 <= j < i + 1 && keys[j] == x by {
                    if map_of(before).contains_key(x) {
                        let j = choose|j: int| 0 <= j < i && keys[j] == x;
                        assert(0 <= j < i + 1 && keys[j] == x);
                    }
                }
            }
            i = i + 1;
        }
        proof {
            assert forall|x: Seq<char>| #[trigger] map_of(out@).contains_key(
                x,
            ) <==> self@.contains_key(x) by {
                assert(self@.contains_key(x) <==> keys.contains(x));
            }
            assert(map_of(out@) =~= self@);
            keys.unique_seq_to_set();
            assert(keys.to_set() =~= self@.dom());
        }
        out
    }

    /// The map that pairs of a key and a value give, the later ones before the earlier ones.
    pub fn from_pairs(pairs: Vec<(String, V)>) -> (r: Self)
        ensures
            r.wf(),
            r@ == map_of(pairs@),
    {
        let mut r: StringMap<V> = StringMap::new();
        let mut i: usize = 0;
        assert(pairs@.take(0) =~= Seq::<(String, V)>::empty());
        while i < pairs.len()
            invariant
                i <= pairs@.len(),
                r.wf(),
                r@ == map_of(pairs@.take(i as int)),
            decreases pairs@.len() - i,
        {
            assert(pairs@.take(i + 1).drop_last() =~= pairs@.take(i as int));
            r.insert(pairs[i].0.clone(), pairs[i].1);
            i = i + 1;
        }
        assert(pairs@.take(i as int) =~= pairs@);
        r
    }

    /// The keys, each once.
    pub fn keys(&self) -> (r: Vec<String>)
        requires
            self.wf(),
        ensures
            views(r@).no_duplicates(),
            views(r@).to_set() == self@.dom(),
    {
        let r = clone_strings(&self.keys);
        assert(views(r@).to_set() =~= self@.dom());
        r
    }
}

// --- Laws ---

/// Of several pairs with one key the last counts, and a map has exactly the keys of its pairs.
pub proof fn law_last_pair_counts<V>(a: Seq<(String, V)>, k: String, v: V, b: Seq<(String, V)>)
    requires
        forall|i: int| 0 <= i < b.len() ==> (#[trigger] b[i]).0@ != k@,
    ensures
        map_of(a + seq![(k, v)] + b).contains_key(k@),
        map_of(a + seq![(k, v)] + b)[k@] == v,
        !map_of(b).contains_key(k@),
        b.len() == 0 ==> map_of(a + seq![(k, v)] + b) == map_of(a).insert(k@, v),
    decreases b.len(),
{
    let all = a + seq![(k, v)] + b;
    if b.len() == 0 {
        assert(all.drop_last() =~= a);
        assert(all.last() == (k, v));
    } else {
        let t = b.drop_last();
        assert forall|i: int| 0 <= i < t.len() implies (#[trigger] t[i]).0@ != k@ by {
            assert(t[i] == b[i]);
        }
        law_last_pair_counts(a, k, v, t);
        assert(all.drop_last() =~= a + seq![(k, v)] + t);
        assert(all.last() == b.last());
        assert(b[b.len() - 1].0@ != k@);
    }
}

}
