//! How often each document was opened.
use crate::string_map::StringMap;
use vstd::prelude::*;
use vstd::string::*;

verus! {

use crate::string_map::map_of;

/// The number of clicks on each document, by document identifier.
pub struct ClickHistory {
    counts: StringMap<u64>,
}

impl View for ClickHistory {
    type V = Map<Seq<char>, u64>;

    closed spec fn view(&self) -> Map<Seq<char>, u64> {
        self.counts@
    }
}

/// The clicks on a document: none where it was never clicked.
pub open spec fn clicks(m: Map<Seq<char>, u64>, id: Seq<char>) -> u64 {
    if m.contains_key(id) {
        m[id]
    } else {
        0
    }
}

impl Default for ClickHistory {
    fn default() -> (r: Self)
        ensures
            r.wf(),
            r@ == Map::<Seq<char>, u64>::empty(),
    {
        ClickHistory { counts: StringMap::new() }
    }
}

impl ClickHistory {
    /// The invariant of the table.
    pub closed spec fn wf(&self) -> bool {
        self.counts.wf()
    }

    /// Counts one more click on a document.
    pub fn record_click(&mut self, doc_id: &str)
        requires
            old(self).wf(),
            clicks(old(self)@, doc_id@) < u64::MAX,
        ensures
            final(self).wf(),
            final(self)@ == old(self)@.insert(
                doc_id@,
                (clicks(old(self)@, doc_id@) + 1) as u64,
            ),
    {
        let n = self.count(doc_id);
        self.counts.insert(doc_id.to_owned(), n + 1);
    }

    /// The clicks on a document.
    pub fn count(&self, doc_id: &str) -> (r: u64)
        requires
            self.wf(),
        ensures
            r == clicks(self@, doc_id@),
    {
        match self.counts.get(doc_id) {
            Some(n) => n,
            None => 0,
        }
    }

    /// What a saved history holds: every document that was clicked with its clicks.
    pub fn saved(&self) -> (r: Vec<(String, u64)>)
        requires
            self.wf(),
        ensures
            map_of(r@) == self@,
            r@.len() == self@.dom().len(),
    {
        self.counts.pairs()
    }

    /// The history that a saved file gives: `saved` holds its counts, or is `None` where there
    /// is no file. What `saved` gives of a history is read back as the same counts.
    pub fn restored(saved: Option<Vec<(String, u64)>>) -> (r: Self)
        ensures
            r.wf(),
            saved is None ==> r@ == Map::<Seq<char>, u64>::empty(),
            saved matches Some(s) ==> r@ == map_of(s@),
    {
        match saved {
            None => ClickHistory::default(),
            Some(s) => ClickHistory { counts: StringMap::from_pairs(s) },
        }
    }
}

/// A click raises the count of its own document by one and of no other.
pub proof fn law_click_counts_once(m: Map<Seq<char>, u64>, id: Seq<char>, other: Seq<char>)
    requires
        clicks(m, id) < u64::MAX,
        other != id,
    ensures
        ({
            let after = m.insert(id, (clicks(m, id) + 1) as u64);
            clicks(after, id) == clicks(m, id) + 1 && clicks(after, other) == clicks(m, other)
        }),
{
}

}
