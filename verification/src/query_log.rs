//! The log of recent search queries, most recent first.
use crate::text::{same, trim};
use std::collections::VecDeque;
use vstd::prelude::*;
use vstd::string::*;

verus! {

use crate::text::{trimmed, views, lemma_trimmed};

/// How many queries a log keeps unless told otherwise.
pub const DEFAULT_MAX: usize = 100;

/// The recent queries, most recent first, and how many of them are kept.
pub struct QueryLog {
    entries: VecDeque<String>,
    max: usize,
}

/// The entries other than `q`, in their order.
pub open spec fn without(s: Seq<Seq<char>>, q: Seq<char>) -> Seq<Seq<char>>
    decreases s.len(),
{
    if s.len() == 0 {
        Seq::empty()
    } else if s.last() == q {
        without(s.drop_last(), q)
    } else {
        without(s.drop_last(), q).push(s.last())
    }
}

/// The first `n` entries, or all of them where there are fewer.
pub open spec fn first_entries(s: Seq<Seq<char>>, n: nat) -> Seq<Seq<char>> {
    if n < s.len() {
        s.take(n as int)
    } else {
        s
    }
}

/// The entries after recording the query `q` in a log of at most `max`.
pub open spec fn recorded(s: Seq<Seq<char>>, max: nat, q: Seq<char>) -> Seq<Seq<char>> {
    let t = trimmed(q);
    if t.len() == 0 {
        s
    } else {
        first_entries(seq![t] + without(s, t), max)
    }
}

/// The entries and the limit of the log that a saved file gives.
pub open spec fn read_back(saved: Option<(Seq<Seq<char>>, usize)>) -> (Seq<Seq<char>>, usize) {
    match saved {
        None => (Seq::empty(), DEFAULT_MAX),
        Some((entries, max)) => (
            entries,
            if max == 0 {
                DEFAULT_MAX
            } else {
                max
            },
        ),
    }
}

impl Default for QueryLog {
    fn default() -> (r: Self)
        ensures
            r.entries() == Seq::<Seq<char>>::empty(),
            r.max() == DEFAULT_MAX,
    {
        let r = QueryLog { entries: VecDeque::with_capacity(DEFAULT_MAX), max: DEFAULT_MAX };
        assert(r.entries() =~= Seq::<Seq<char>>::empty());
        r
    }
}

impl QueryLog {
    /// The recent queries, most recent first.
    pub closed spec fn entries(&self) -> Seq<Seq<char>> {
        views(self.entries@)
    }

    /// How many queries are kept.
    pub closed spec fn max(&self) -> usize {
        self.max
    }

    /// The log with the given entries and limit.
    pub fn with_entries(entries: Vec<String>, max: usize) -> (r: Self)
        ensures
            r.entries() == views(entries@),
            r.max() == max,
    {
        let mut list: VecDeque<String> = VecDeque::new();
        for i in 0..entries.len()
            invariant
                list@.len() == i,
                forall|j: int| 0 <= j < i ==> list@[j]@ == entries@[j]@,
        {
            list.push_back(entries[i].clone());
        }
        let r = QueryLog { entries: list, max };
        assert(r.entries() =~= views(entries@));
        r
    }

    /// The log that a saved file gives: `saved` holds its entries and its limit, or is `None`
    /// where there is no file or where it does not parse. A limit of zero is not kept.
    pub fn restored(saved: Option<(Vec<String>, usize)>) -> (r: Self)
        ensures
            (r.entries(), r.max()) == read_back(
                (match saved {
                    None => None,
                    Some(s) => Some((views(s.0@), s.1)),
                }),
            ),
    {
        match saved {
            None => QueryLog::default(),
            Some((entries, max)) => {
                let limit: usize = if max == 0 {
                    DEFAULT_MAX
                } else {
                    max
                };
                QueryLog::with_entries(entries, limit)
            },
        }
    }

    /// What a saved file holds of the log: its entries and its limit.
    pub fn saved(&self) -> (r: (Vec<String>, usize))
        ensures
            (views(r.0@), r.1) == (self.entries(), self.max()),
    {
        (self.recent(self.entries.len()), self.max)
    }

    /// How many queries are kept.
    pub fn limit(&self) -> (r: usize)
        ensures
            r == self.max(),
    {
        self.max
    }

    /// Puts a query in front, without the white space around it; the same query further
    /// back leaves the log, and so does what is then beyond the limit. A query of white
    /// space alone changes nothing.
    pub fn record_query(&mut self, q: &str)
        ensures
            final(self).max() == old(self).max(),
            final(self).entries() == recorded(old(self).entries(), old(self).max() as nat, q@),
    {
        let t = trim(q);
        if t.as_str().is_empty() {
            return;
        }
        let ghost start = self.entries();
        let max = self.max;
        let mut kept: VecDeque<String> = VecDeque::new();
        let mut i: usize = 0;
        while i < self.entries.len()
            invariant
                i <= self.entries@.len(),
                self.entries() == start,
                self.max == max,
                t@ == trimmed(q@),
                views(kept@) =~= without(start.take(i as int), t@),
            decreases self.entries@.len() - i,
        {
            proof {
                assert(start.take(i + 1).drop_last() =~= start.take(i as int));
                assert(start.take(i + 1).last() == self.entries@[i as int]@);
            }
            if !same(self.entries[i].as_str(), t.as_str()) {
                let e = self.entries[i].clone();
                let ghost before = kept@;
                kept.push_back(e);
                assert(views(kept@) =~= views(before).push(e@));
            }
            i = i + 1;
        }
        assert(start.take(i as int) =~= start);
        let ghost tv = t@;
        let ghost before = kept@;
        kept.push_front(t);
        assert(views(kept@) =~= seq![tv] + views(before));
        kept.truncate(max);
        self.entries = kept;
        assert(self.entries() =~= recorded(start, max as nat, q@));
    }

    /// The `n` most recent queries, most recent first.
    pub fn recent(&self, n: usize) -> (r: Vec<String>)
        ensures
            views(r@) == first_entries(self.entries(), n as nat),
    {
        let mut out: Vec<String> = Vec::new();
        let mut i: usize = 0;
        while i < n && i < self.entries.len()
            invariant
                i <= n,
                i <= self.entries@.len(),
                out@.len() == i,
                forall|j: int| 0 <= j < i ==> out@[j]@ == self.entries@[j]@,
            decreases n - i,
        {
            out.push(self.entries[i].clone());
            i = i + 1;
        }
        assert(views(out@) =~= first_entries(self.entries(), n as nat));
        out
    }
}

/// A log that is saved and read back has the same limit and the same recent queries, however
/// many of them are asked for. A limit of zero is the one that is not kept.
pub proof fn law_saved_log_is_read_back(log: QueryLog, n: nat)
    requires
        log.max() != 0,
    ensures
        read_back(Some((log.entries(), log.max()))) == (log.entries(), log.max()),
        first_entries(read_back(Some((log.entries(), log.max()))).0, n) == first_entries(
            log.entries(),
            n,
        ),
        read_back(Some((first_entries(log.entries(), log.entries().len()), log.max()))) == (
            log.entries(),
            log.max(),
        ),
{
}

/// Dropping a query leaves the others, in their order, and none of that query.
proof fn lemma_without(s: Seq<Seq<char>>, q: Seq<char>)
    ensures
        !without(s, q).contains(q),
        forall|x: Seq<char>| x != q ==> (#[trigger] without(s, q).contains(x) <==> s.contains(x)),
        s.no_duplicates() ==> without(s, q).no_duplicates(),
        without(s, q).len() <= s.len(),
    decreases s.len(),
{
    if s.len() > 0 {
        let t = s.drop_last();
        lemma_without(t, q);
        let w = without(t, q);
        assert(s =~= t.push(s.last()));
        assert forall|x: Seq<char>| x != q implies (#[trigger] without(s, q).contains(x)
            <==> s.contains(x)) by {
            assert(w.contains(x) <==> t.contains(x));
            if t.contains(x) {
                let i = choose|i: int| 0 <= i < t.len() && t[i] == x;
                assert(s[i] == x);
                let k = choose|k: int| 0 <= k < w.len() && w[k] == x;
                if s.last() != q {
                    assert(without(s, q)[k] == x);
                }
            }
            if x == s.last() {
                assert(without(s, q)[w.len() as int] == x);
                assert(s[s.len() - 1] == x);
            }
            if without(s, q).contains(x) && x != s.last() {
                let k = choose|k: int| 0 <= k < without(s, q).len() && without(s, q)[k] == x;
                assert(w[k] == x);
            }
            if s.contains(x) && x != s.last() {
                let k = choose|k: int| 0 <= k < s.len() && s[k] == x;
                assert(t[k] == x);
            }
        }
        if s.no_duplicates() {
            assert(t.no_duplicates());
            if s.last() != q {
                assert(!t.contains(s.last())) by {
                    if t.contains(s.last()) {
                        let i = choose|i: int| 0 <= i < t.len() && t[i] == s.last();
                        assert(s[i] == s[s.len() - 1]);
                    }
                }
                assert(!w.contains(s.last()));
                assert(without(s, q).no_duplicates());
            }
        }
    }
}

/// Recording a query that is not blank, in a log that keeps at least one: the query stands
/// first, no query stands twice if none did before, the log is within its limit, and no
/// query appears that was not there.
pub proof fn law_recorded(s: Seq<Seq<char>>, max: nat, q: Seq<char>)
    requires
        trimmed(q).len() > 0,
        max > 0,
    ensures
        recorded(s, max, q).len() > 0,
        recorded(s, max, q)[0] == trimmed(q),
        recorded(s, max, q).len() <= max,
        s.no_duplicates() ==> recorded(s, max, q).no_duplicates(),
        forall|x: Seq<char>| #[trigger] recorded(s, max, q).contains(x) ==> x == trimmed(q) || s.contains(x),
{
    let t = trimmed(q);
    let w = without(s, t);
    let all = seq![t] + w;
    lemma_without(s, t);
    let r = recorded(s, max, q);
    assert forall|x: Seq<char>| #[trigger] r.contains(x) implies x == t || s.contains(x) by {
        let i = choose|i: int| 0 <= i < r.len() && r[i] == x;
        assert(all[i] == x);
        if i > 0 {
            assert(w[i - 1] == x);
            assert(w.contains(x));
        }
    }
    if s.no_duplicates() {
        assert forall|i: int, j: int| 0 <= i < r.len() && 0 <= j < r.len() && i != j implies r[i]
            != r[j] by {
            assert(r[i] == all[i] && r[j] == all[j]);
            if i == 0 {
                assert(all[j] == w[j - 1]);
                assert(w.contains(w[j - 1]));
            } else if j == 0 {
                assert(all[i] == w[i - 1]);
                assert(w.contains(w[i - 1]));
            } else {
                assert(all[i] == w[i - 1] && all[j] == w[j - 1]);
            }
        }
    }
}

/// Recording a query twice in a row is recording it once.
pub proof fn law_recorded_twice(s: Seq<Seq<char>>, max: nat, q: Seq<char>)
    requires
        max > 0,
    ensures
        recorded(recorded(s, max, q), max, q) == recorded(s, max, q),
{
    let t = trimmed(q);
    if t.len() > 0 {
        let w = without(s, t);
        let r = recorded(s, max, q);
        lemma_without(s, t);
        let tail = r.skip(1);
        assert(r =~= seq![t] + tail);
        assert(!tail.contains(t)) by {
            if tail.contains(t) {
                let i = choose|i: int| 0 <= i < tail.len() && tail[i] == t;
                assert(w[i] == t);
                assert(w.contains(t));
            }
        }
        lemma_without_absent(tail, t);
        lemma_without_front(tail, t);
        assert(recorded(r, max, q) =~= r);
    }
}

proof fn lemma_without_absent(s: Seq<Seq<char>>, q: Seq<char>)
    requires
        !s.contains(q),
    ensures
        without(s, q) == s,
    decreases s.len(),
{
    if s.len() > 0 {
        assert(s.last() == s[s.len() - 1]);
        assert(!s.drop_last().contains(q)) by {
            if s.drop_last().contains(q) {
                let i = choose|i: int| 0 <= i < s.len() - 1 && s.drop_last()[i] == q;
                assert(s[i] == q);
            }
        }
        lemma_without_absent(s.drop_last(), q);
        assert(s =~= s.drop_last().push(s.last()));
    } else {
        assert(s =~= Seq::<Seq<char>>::empty());
    }
}

proof fn lemma_without_front(s: Seq<Seq<char>>, q: Seq<char>)
    ensures
        without(seq![q] + s, q) == without(s, q),
    decreases s.len(),
{
    let f = seq![q] + s;
    if s.len() == 0 {
        assert(f.drop_last() =~= s);
        assert(f.last() == q);
    } else {
        assert(f.drop_last() =~= seq![q] + s.drop_last());
        assert(f.last() == s.last());
        lemma_without_front(s.drop_last(), q);
    }
}

/// A blank query changes nothing.
pub proof fn law_blank_not_recorded(s: Seq<Seq<char>>, max: nat, q: Seq<char>)
    requires
        forall|i: int| 0 <= i < q.len() ==> crate::text::is_whitespace(#[trigger] q[i]),
    ensures
        recorded(s, max, q) == s,
    decreases q.len(),
{
    lemma_trimmed(q);
    lemma_all_blank(q);
}

proof fn lemma_all_blank(q: Seq<char>)
    requires
        forall|i: int| 0 <= i < q.len() ==> crate::text::is_whitespace(#[trigger] q[i]),
    ensures
        crate::text::trim_start(q).len() == 0,
    decreases q.len(),
{
    if q.len() > 0 {
        lemma_all_blank(q.skip(1));
    }
}

/// Recording a query moves it to the front and leaves the others behind it in their order; as
/// far as the log has room, none of them is lost, and those that are dropped are the oldest.
pub proof fn law_recorded_order(a: Seq<Seq<char>>, b: Seq<Seq<char>>, max: nat, q: Seq<char>)
    requires
        trimmed(q).len() > 0,
        !a.contains(trimmed(q)),
        !b.contains(trimmed(q)),
    ensures
        recorded(a + seq![trimmed(q)] + b, max, q) == first_entries(seq![trimmed(q)] + a + b, max),
        recorded(a + b, max, q) == first_entries(seq![trimmed(q)] + a + b, max),
{
    let t = trimmed(q);
    lemma_without_parts(a, seq![t], t);
    lemma_without_parts(a + seq![t], b, t);
    lemma_without_parts(a, b, t);
    lemma_without_none(a, t);
    lemma_without_none(b, t);
    assert(seq![t].drop_last() =~= Seq::<Seq<char>>::empty());
    assert(without(seq![t].drop_last(), t) =~= Seq::<Seq<char>>::empty());
    assert(without(seq![t], t) =~= Seq::<Seq<char>>::empty());
    assert(without(a + seq![t] + b, t) =~= a + b);
    assert(without(a + b, t) =~= a + b);
    assert(seq![t] + (a + b) =~= seq![t] + a + b);
}

proof fn lemma_without_parts(a: Seq<Seq<char>>, b: Seq<Seq<char>>, q: Seq<char>)
    ensures
        without(a + b, q) == without(a, q) + without(b, q),
    decreases b.len(),
{
    if b.len() == 0 {
        assert(a + b =~= a);
        assert(without(a + b, q) =~= without(a, q) + without(b, q));
    } else {
        lemma_without_parts(a, b.drop_last(), q);
        assert((a + b).drop_last() =~= a + b.drop_last());
        assert((a + b).last() == b.last());
        assert(without(a + b, q) =~= without(a, q) + without(b, q));
    }
}

proof fn lemma_without_none(a: Seq<Seq<char>>, q: Seq<char>)
    requires
        !a.contains(q),
    ensures
        without(a, q) == a,
    decreases a.len(),
{
    if a.len() > 0 {
        let t = a.drop_last();
        assert forall|i: int| 0 <= i < t.len() implies t[i] != q by {
            assert(a.contains(a[i]));
        }
        assert(a.contains(a.last()));
        lemma_without_none(t, q);
        assert(t.push(a.last()) =~= a);
    } else {
        assert(without(a, q) =~= a);
    }
}

/// What is asked for of the log are its first entries, as many as there are and no more than
/// were asked for.
pub proof fn law_first_entries(s: Seq<Seq<char>>, n: nat, i: int)
    ensures
        first_entries(s, n).len() <= n,
        first_entries(s, n).len() == n || first_entries(s, n) == s,
        0 <= i < first_entries(s, n).len() ==> first_entries(s, n)[i] == s[i],
{
}

/// Without a saved log there are no earlier queries; a saved limit of none is the usual one, and
/// any other is kept, with all the entries.
pub proof fn law_read_back(entries: Seq<Seq<char>>, max: usize)
    ensures
        read_back(None).0.len() == 0,
        read_back(None).1 == read_back(Some((entries, 0usize))).1,
        read_back(None).1 > 0,
        read_back(Some((entries, max))).0 == entries,
        max > 0 ==> read_back(Some((entries, max))).1 == max,
{
}

}
