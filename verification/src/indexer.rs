//! Indexing everything, some paths, or what has changed: which changes go to the index, in
//! which order, and how they are counted.
use crate::model::Document;
use vstd::prelude::*;
use vstd::string::*;

verus! {


/// How many documents were indexed.
#[derive(Debug, Clone, Copy, PartialEq, Eq, Structural)]
pub struct ReindexOutcome {
    pub total_docs: usize,
    pub fs_docs: usize,
    pub other_docs: usize,
}

/// What an indexing run does: everything anew, or what has changed.
#[derive(Debug, Clone, Copy, PartialEq, Eq, Structural)]
pub enum RunKind {
    Full,
    Incremental,
}

/// What a run has got to.
#[derive(Debug, Clone, Copy, PartialEq, Eq, Structural)]
pub enum Phase {
    /// Files are being walked over.
    Files,
    /// The other sources are being read.
    Sources,
    /// It is over.
    Finished,
}

/// What has to be done with the index.
pub enum RunAction {
    /// Put the documents in, and wait until they are.
    Upsert(Vec<Document>),
    /// Take the documents out, and wait until they are.
    Delete(Vec<String>),
    /// Nothing.
    Nothing,
    /// Make the changes last at once, and keep the manifest that the walk made.
    Commit,
    /// Keep the manifest.
    SaveManifest,
}

/// An indexing run.
pub struct IndexRun {
    pub kind: RunKind,
    pub phase: Phase,
    pub fs_docs: usize,
    pub other_docs: usize,
}

/// What follows the walk over the files, where these documents have no file any more.
pub open spec fn action_after_walk(kind: RunKind, deleted: Vec<String>) -> RunAction {
    if kind == RunKind::Incremental && deleted@.len() > 0 {
        RunAction::Delete(deleted)
    } else {
        RunAction::Nothing
    }
}

/// What a run ends with.
pub open spec fn action_at_end(kind: RunKind) -> RunAction {
    match kind {
        RunKind::Full => RunAction::Commit,
        RunKind::Incremental => RunAction::SaveManifest,
    }
}

impl IndexRun {
    /// A run at its start.
    pub fn new(kind: RunKind) -> (r: Self)
        ensures
            r.kind == kind,
            r.phase == Phase::Files,
            r.fs_docs == 0,
            r.other_docs == 0,
    {
        IndexRun { kind, phase: Phase::Files, fs_docs: 0, other_docs: 0 }
    }

    /// The walk over the files gave a batch of documents.
    pub fn batch(&mut self, docs: Vec<Document>) -> (r: RunAction)
        requires
            old(self).phase == Phase::Files,
            old(self).fs_docs + docs@.len() <= usize::MAX,
        ensures
            final(self).kind == old(self).kind,
            final(self).phase == Phase::Files,
            final(self).fs_docs == old(self).fs_docs + docs@.len(),
            final(self).other_docs == old(self).other_docs,
            r == RunAction::Upsert(docs),
    {
        self.fs_docs = self.fs_docs + docs.len();
        RunAction::Upsert(docs)
    }

    /// The walk is over; `deleted` are the documents whose files are gone. A full run starts
    /// without knowledge of earlier files and takes none out.
    pub fn walked(&mut self, deleted: Vec<String>) -> (r: RunAction)
        requires
            old(self).phase == Phase::Files,
        ensures
            final(self).kind == old(self).kind,
            final(self).phase == Phase::Sources,
            final(self).fs_docs == old(self).fs_docs,
            final(self).other_docs == old(self).other_docs,
            r == action_after_walk(old(self).kind, deleted),
    {
        self.phase = Phase::Sources;
        match self.kind {
            RunKind::Full => RunAction::Nothing,
            RunKind::Incremental => {
                if deleted.len() > 0 {
                    RunAction::Delete(deleted)
                } else {
                    RunAction::Nothing
                }
            },
        }
    }

    /// A source gave its documents.
    pub fn source(&mut self, docs: Vec<Document>) -> (r: RunAction)
        requires
            old(self).phase == Phase::Sources,
            old(self).other_docs + docs@.len() <= usize::MAX,
        ensures
            final(self).kind == old(self).kind,
            final(self).phase == Phase::Sources,
            final(self).fs_docs == old(self).fs_docs,
            final(self).other_docs == old(self).other_docs + docs@.len(),
            r == RunAction::Upsert(docs),
    {
        self.other_docs = self.other_docs + docs.len();
        RunAction::Upsert(docs)
    }

    /// Every source was read.
    pub fn finish(&mut self) -> (r: RunAction)
        requires
            old(self).phase == Phase::Sources,
        ensures
            final(self).kind == old(self).kind,
            final(self).phase == Phase::Finished,
            final(self).fs_docs == old(self).fs_docs,
            final(self).other_docs == old(self).other_docs,
            r == action_at_end(old(self).kind),
    {
        self.phase = Phase::Finished;
        match self.kind {
            RunKind::Full => RunAction::Commit,
            RunKind::Incremental => RunAction::SaveManifest,
        }
    }

    /// How many documents were indexed.
    pub fn outcome(&self) -> (r: ReindexOutcome)
        requires
            self.fs_docs + self.other_docs <= usize::MAX,
        ensures
            r.total_docs == self.fs_docs + self.other_docs,
            r.fs_docs == self.fs_docs,
            r.other_docs == self.other_docs,
    {
        ReindexOutcome {
            total_docs: self.fs_docs + self.other_docs,
            fs_docs: self.fs_docs,
            other_docs: self.other_docs,
        }
    }
}

/// What is at a path.
#[derive(Debug, Clone, Copy, PartialEq, Eq, Structural)]
pub enum PathKind {
    File,
    Directory,
    Neither,
}

/// What is read for a path that was asked for.
#[derive(Debug, Clone, Copy, PartialEq, Eq, Structural)]
pub enum PathWork {
    /// The file at the path of this number.
    IndexFile(usize),
    /// All the files below the path of this number.
    WalkDirectory(usize),
}

/// What is read for the first `n` of the paths.
pub open spec fn work_of(kinds: Seq<PathKind>, n: int) -> Seq<PathWork>
    decreases n,
{
    if n <= 0 {
        Seq::empty()
    } else {
        let before = work_of(kinds, n - 1);
        match kinds[n - 1] {
            PathKind::File => before.push(PathWork::IndexFile((n - 1) as usize)),
            PathKind::Directory => before.push(PathWork::WalkDirectory((n - 1) as usize)),
            PathKind::Neither => before,
        }
    }
}

/// What is read for the paths that were asked for, in their order; a path with nothing at it
/// is passed over.
pub fn reindex_paths(kinds: &Vec<PathKind>) -> (r: Vec<PathWork>)
    ensures
        r@ == work_of(kinds@, kinds@.len() as int),
{
    let mut out: Vec<PathWork> = Vec::new();
    for i in 0..kinds.len()
        invariant
            out@ =~= work_of(kinds@, i as int),
    {
        match kinds[i] {
            PathKind::File => out.push(PathWork::IndexFile(i)),
            PathKind::Directory => out.push(PathWork::WalkDirectory(i)),
            PathKind::Neither => {},
        }
    }
    out
}

/// Whether everything is indexed anew for a request, or the paths that it names.
pub fn reindexes_all(paths: &Vec<String>) -> (r: bool)
    ensures
        r == (paths@.len() == 0),
{
    paths.len() == 0
}

// --- Laws ---

/// Every path that is a file is indexed, every directory is walked over, in the order of the
/// paths and each once, and nothing else is done.
pub proof fn law_work(kinds: Seq<PathKind>, n: int)
    requires
        0 <= n < kinds.len() <= usize::MAX,
    ensures
        ({
            let before = work_of(kinds, n);
            let after = work_of(kinds, n + 1);
            &&& kinds[n] == PathKind::File ==> after == before.push(PathWork::IndexFile(n as usize))
            &&& kinds[n] == PathKind::Directory ==> after == before.push(
                PathWork::WalkDirectory(n as usize),
            )
            &&& kinds[n] == PathKind::Neither ==> after == before
        }),
        work_of(kinds, 0).len() == 0,
        ({
            let all = work_of(kinds, kinds.len() as int);
            &&& all.contains(PathWork::IndexFile(n as usize)) <==> kinds[n] == PathKind::File
            &&& all.contains(PathWork::WalkDirectory(n as usize)) <==> kinds[n]
                == PathKind::Directory
        }),
{
    lemma_work(kinds, kinds.len() as int, n);
}

proof fn lemma_work(kinds: Seq<PathKind>, m: int, n: int)
    requires
        0 <= m <= kinds.len() <= usize::MAX,
        0 <= n < kinds.len(),
    ensures
        work_of(kinds, m).contains(PathWork::IndexFile(n as usize)) <==> n < m && kinds[n]
            == PathKind::File,
        work_of(kinds, m).contains(PathWork::WalkDirectory(n as usize)) <==> n < m && kinds[n]
            == PathKind::Directory,
    decreases m,
{
    if m > 0 {
        lemma_work(kinds, m - 1, n);
        let before = work_of(kinds, m - 1);
        let now = work_of(kinds, m);
        let f = PathWork::IndexFile(n as usize);
        let d = PathWork::WalkDirectory(n as usize);
        assert forall|w: PathWork| before.contains(w) implies #[trigger] now.contains(w) by {
            let k = choose|k: int| 0 <= k < before.len() && before[k] == w;
            assert(now[k] == w);
        }
        assert forall|w: PathWork| #[trigger] now.contains(w) implies before.contains(w) || (now.len()
            > before.len() && w == now.last()) by {
            let k = choose|k: int| 0 <= k < now.len() && now[k] == w;
            if k < before.len() {
                assert(before[k] == w);
            }
        }
        if now.len() > before.len() {
            assert(now[now.len() - 1] == now.last());
            assert(now.contains(now.last()));
        }
        if n == m - 1 {
            if kinds[n] == PathKind::File {
                assert(now.last() == f);
            }
            if kinds[n] == PathKind::Directory {
                assert(now.last() == d);
            }
        }
    }
}

/// Only a run that goes on from an earlier one takes documents out, and then all of those whose
/// files are gone; a full run makes its changes last itself.
pub proof fn law_run_actions(kind: RunKind, deleted: Vec<String>)
    ensures
        action_after_walk(kind, deleted) matches RunAction::Delete(d) ==> d == deleted && kind
            == RunKind::Incremental,
        action_after_walk(kind, deleted) is Delete || action_after_walk(kind, deleted) is Nothing,
        kind == RunKind::Incremental && deleted@.len() > 0 ==> action_after_walk(kind, deleted)
            is Delete,
        action_at_end(kind) is Commit <==> kind == RunKind::Full,
        action_at_end(kind) is SaveManifest <==> kind == RunKind::Incremental,
{
}

}
