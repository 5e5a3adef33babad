//! Which files were indexed, and as of which modification time.
use crate::string_map::StringMap;
use vstd::prelude::*;
use vstd::string::*;

verus! {

use crate::string_map::map_of;
use crate::text::views;

/// The modification time of each indexed file.
pub struct Manifest {
    files: StringMap<i64>,
}

impl View for Manifest {
    type V = Map<Seq<char>, i64>;

    closed spec fn view(&self) -> Map<Seq<char>, i64> {
        self.files@
    }
}

impl Default for Manifest {
    fn default() -> (r: Self)
        ensures
            r.wf(),
            r@ == Map::<Seq<char>, i64>::empty(),
    {
        Manifest { files: StringMap::new() }
    }
}

/// Whether the file was seen with this time.
pub open spec fn unchanged(m: Map<Seq<char>, i64>, path: Seq<char>, mtime: i64) -> bool {
    m.contains_key(path) && m[path] == mtime
}

/// Whether the file has to be indexed: it is not in the index, or was not seen with this time.
pub open spec fn outdated(
    m: Map<Seq<char>, i64>,
    path: Seq<char>,
    mtime: i64,
    indexed: bool,
) -> bool {
    !(indexed && m.contains_key(path) && m[path] == mtime)
}

/// Whether exactly the files that were not seen went, each named once in `gone`, and the others
/// stay as they are.
pub open spec fn forgets(
    before: Map<Seq<char>, i64>,
    seen: Map<Seq<char>, bool>,
    after: Map<Seq<char>, i64>,
    gone: Seq<Seq<char>>,
) -> bool {
    &&& forall|p: Seq<char>| #[trigger]
        after.contains_key(p) <==> before.contains_key(p) && seen.contains_key(p)
    &&& forall|p: Seq<char>| #[trigger] after.contains_key(p) ==> after[p] == before[p]
    &&& gone.no_duplicates()
    &&& forall|p: Seq<char>| #[trigger]
        gone.contains(p) <==> before.contains_key(p) && !seen.contains_key(p)
}

impl Manifest {
    /// The invariant of the table.
    pub closed spec fn wf(&self) -> bool {
        self.files.wf()
    }

    /// Whether the file is known with this modification time.
    pub fn is_unchanged(&self, path: &str, mtime: i64) -> (r: bool)
        requires
            self.wf(),
        ensures
            r == unchanged(self@, path@, mtime),
    {
        match self.files.get(path) {
            Some(m) => m == mtime,
            None => false,
        }
    }

    /// Records the modification time of a file.
    pub fn update(&mut self, path: String, mtime: i64)
        requires
            old(self).wf(),
        ensures
            final(self).wf(),
            final(self)@ == old(self)@.insert(path@, mtime),
    {
        self.files.insert(path, mtime);
    }

    /// Forgets a file.
    pub fn remove(&mut self, path: &str)
        requires
            old(self).wf(),
        ensures
            final(self).wf(),
            final(self)@ == old(self)@.remove(path@),
    {
        self.files.remove(path);
    }

    /// The known files, each once.
    pub fn known_paths(&self) -> (r: Vec<String>)
        requires
            self.wf(),
        ensures
            views(r@).no_duplicates(),
            views(r@).to_set() == self@.dom(),
    {
        self.files.keys()
    }

    /// Whether a file has to be indexed: it changed since it was recorded, it never was, or its
    /// document is not in the index.
    pub fn needs_indexing(&self, path: &str, mtime: i64, indexed: bool) -> (r: bool)
        requires
            self.wf(),
        ensures
            r == outdated(self@, path@, mtime, indexed),
    {
        !(indexed && self.is_unchanged(path, mtime))
    }

    /// Forgets the files that a walk has not met, and gives them.
    pub fn forget_missing(&mut self, seen: &StringMap<bool>) -> (r: Vec<String>)
        requires
            old(self).wf(),
            seen.wf(),
        ensures
            final(self).wf(),
            forgets(old(self)@, seen@, final(self)@, views(r@)),
    {
        let paths = self.known_paths();
        let ghost all = views(paths@);
        let mut gone: Vec<String> = Vec::new();
        assert(views(gone@) =~= Seq::<Seq<char>>::empty());
        for i in 0..paths.len()
            invariant
                self.wf(),
                seen.wf(),
                all == views(paths@),
                all.no_duplicates(),
                forall|p: Seq<char>| #[trigger]
                    self@.contains_key(p) <==> old(self)@.contains_key(p) && !views(gone@).contains(p),
                forall|p: Seq<char>| #[trigger]
                    self@.contains_key(p) ==> self@[p] == old(self)@[p],
                views(gone@).no_duplicates(),
                forall|p: Seq<char>| #[trigger]
                    views(gone@).contains(p) <==> all.take(i as int).contains(p)
                        && !seen@.contains_key(p),
        {
            let ghost path = paths@[i as int]@;
            let ghost before = views(gone@);
            assert(all[i as int] == path);
            assert(!all.take(i as int).contains(path));
            assert forall|p: Seq<char>| #[trigger]
                all.take(i + 1).contains(p) <==> all.take(i as int).contains(p) || p == path by {
                lemma_take_contains(all, i as int, p);
            }
            if seen.get(paths[i].as_str()).is_none() {
                self.remove(paths[i].as_str());
                gone.push(paths[i].clone());
                proof {
                    assert(views(gone@) =~= before.push(path));
                    assert(!before.contains(path));
                    lemma_push_distinct(before, path);
                    assert forall|p: Seq<char>| #[trigger]
                        views(gone@).contains(p) <==> before.contains(p) || p == path by {
                        lemma_push_contains(before, path, p);
                    }
                }
            }
        }
        proof {
            assert(all.take(paths@.len() as int) =~= all);
            assert forall|p: Seq<char>| #[trigger]
                all.contains(p) <==> old(self)@.contains_key(p) by {
                assert(all.to_set().contains(p) <==> all.contains(p));
            }
        }
        gone
    }

    /// What a saved manifest holds: every known file with its modification time.
    pub fn saved(&self) -> (r: Vec<(String, i64)>)
        requires
            self.wf(),
        ensures
            map_of(r@) == self@,
            r@.len() == self@.dom().len(),
    {
        self.files.pairs()
    }

    /// The manifest that a saved file gives: `saved` holds its times, or is `None` where there
    /// is no file or where it does not parse. What `saved` gives of a manifest is read back as
    /// the same times.
    pub fn restored(saved: Option<Vec<(String, i64)>>) -> (r: Self)
        ensures
            r.wf(),
            saved is None ==> r@ == Map::<Seq<char>, i64>::empty(),
            saved matches Some(s) ==> r@ == map_of(s@),
    {
        match saved {
            None => Manifest::default(),
            Some(s) => Manifest { files: StringMap::from_pairs(s) },
        }
    }

    /// The number of known files.
    pub fn len(&self) -> (r: usize)
        requires
            self.wf(),
        ensures
            r == self@.dom().len(),
            self@.dom().finite(),
    {
        self.files.len()
    }

    /// Whether no file is known.
    pub fn is_empty(&self) -> (r: bool)
        requires
            self.wf(),
        ensures
            r == (self@ == Map::<Seq<char>, i64>::empty()),
    {
        let n = self.files.len();
        proof {
            if n == 0 {
                assert(self@.dom() =~= Set::empty());
                assert(self@ =~= Map::<Seq<char>, i64>::empty());
            }
        }
        n == 0
    }
}

proof fn lemma_take_contains(s: Seq<Seq<char>>, i: int, p: Seq<char>)
    requires
        0 <= i < s.len(),
    ensures
        s.take(i + 1).contains(p) <==> s.take(i).contains(p) || p == s[i],
{
    assert(s.take(i + 1) =~= s.take(i).push(s[i]));
    lemma_push_contains(s.take(i), s[i], p);
}

proof fn lemma_push_distinct(s: Seq<Seq<char>>, x: Seq<char>)
    requires
        s.no_duplicates(),
        !s.contains(x),
    ensures
        s.push(x).no_duplicates(),
{
    let t = s.push(x);
    assert forall|i: int, j: int| 0 <= i < t.len() && 0 <= j < t.len() && i != j implies t[i]
        != t[j] by {
        if i < s.len() {
            assert(s.contains(s[i]));
        }
        if j < s.len() {
            assert(s.contains(s[j]));
        }
    }
}

proof fn lemma_push_contains(s: Seq<Seq<char>>, x: Seq<char>, p: Seq<char>)
    ensures
        s.push(x).contains(p) <==> s.contains(p) || p == x,
{
    if s.contains(p) {
        let k = choose|k: int| 0 <= k < s.len() && s[k] == p;
        assert(s.push(x)[k] == p);
    }
    assert(s.push(x)[s.len() as int] == x);
}

/// A file that was just recorded is unchanged at that time and at no other, and recording
/// one file leaves what is known of the others as it was.
pub proof fn law_update_then_unchanged(m: Map<Seq<char>, i64>, path: Seq<char>, mtime: i64)
    ensures
        m.insert(path, mtime).contains_key(path) && m.insert(path, mtime)[path] == mtime,
        forall|q: Seq<char>|
            q != path ==> (#[trigger] m.insert(path, mtime).contains_key(q)) == m.contains_key(q) && (
            m.contains_key(q) ==> m.insert(path, mtime)[q] == m[q]),
        !m.insert(path, mtime).remove(path).contains_key(path),
{
}

/// A file that was indexed is indexed again only once its time differs or it left the index; what
/// is noted of one file says nothing of another, and a file that was never noted is indexed.
pub proof fn law_outdated(
    m: Map<Seq<char>, i64>,
    path: Seq<char>,
    other: Seq<char>,
    mtime: i64,
    later: i64,
    indexed: bool,
)
    ensures
        !outdated(m.insert(path, mtime), path, mtime, true),
        later != mtime ==> outdated(m.insert(path, mtime), path, later, indexed),
        outdated(m, path, mtime, false),
        !m.contains_key(path) ==> outdated(m, path, mtime, indexed),
        outdated(m.remove(path), path, mtime, indexed),
        other != path ==> outdated(m.insert(path, mtime), other, later, indexed) == outdated(
            m,
            other,
            later,
            indexed,
        ),
        outdated(m, path, mtime, true) == !unchanged(m, path, mtime),
        unchanged(m.insert(path, mtime), path, later) <==> later == mtime,
{
}

/// A file that is still there stays noted as it was, and one that is gone is named among the
/// gone and would be indexed anew; nothing that was never noted is named.
pub proof fn law_forgotten_files(
    before: Map<Seq<char>, i64>,
    seen: Map<Seq<char>, bool>,
    after: Map<Seq<char>, i64>,
    gone: Seq<Seq<char>>,
    p: Seq<char>,
    mtime: i64,
    indexed: bool,
)
    requires
        forgets(before, seen, after, gone),
    ensures
        seen.contains_key(p) ==> outdated(after, p, mtime, indexed) == outdated(
            before,
            p,
            mtime,
            indexed,
        ) && !gone.contains(p),
        !seen.contains_key(p) ==> outdated(after, p, mtime, indexed),
        before.contains_key(p) && !seen.contains_key(p) ==> gone.contains(p),
        !before.contains_key(p) ==> !gone.contains(p) && !after.contains_key(p),
        after.contains_key(p) ==> !gone.contains(p) && after[p] == before[p],
{
}

}
