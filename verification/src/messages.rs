//! What clients ask the daemon, and what it answers.
use crate::model::Hit;
use vstd::prelude::*;
use vstd::string::*;

verus! {

/// A request to the daemon. Scores of hits are of type `S`.
pub enum Request<S> {
    Toggle,
    Show,
    Hide,
    Search { q: String, limit: u32 },
    Reindex { paths: Vec<String> },
    Status,
    RecordClick { doc_id: String },
    RecordQuery { q: String },
    SearchHistory { limit: u32 },
    Preview { hit: Box<Hit<S>> },
}

/// An arithmetic expression that was searched for, and its value.
#[derive(Debug)]
pub struct Calculation {
    pub expr: String,
    pub result: String,
}

impl Clone for Calculation {
    fn clone(&self) -> (r: Self)
        ensures
            r == *self,
    {
        Calculation { expr: self.expr.clone(), result: self.result.clone() }
    }
}

/// A point in time: seconds since 1970, and nanoseconds.
#[derive(Debug, Clone, Copy, PartialEq, Eq, Structural)]
pub struct Timestamp {
    pub secs: i64,
    pub nanos: u32,
}

/// What the watcher of files has done.
#[derive(Debug, Clone, Copy, PartialEq, Eq, Structural)]
pub struct WatcherStats {
    pub directories: u64,
    pub excluded: u64,
    pub errors: u64,
    pub overflow_events: u64,
}

/// What the writer of the index has done.
#[derive(Debug, Clone, Copy, PartialEq, Eq, Structural)]
pub struct WriterStats {
    pub commits: u64,
    pub last_commit_latency_ms: u32,
    pub generation: u64,
}

/// How much memory the daemon uses.
#[derive(Debug, Clone, Copy, PartialEq, Eq, Structural)]
pub struct MemoryStats {
    pub rss_bytes: u64,
    pub vm_peak_bytes: u64,
    pub vm_size_bytes: u64,
    pub vm_swap_bytes: u64,
}

/// An answer of the daemon.
pub enum Response<S> {
    /// The request was carried out.
    Done,
    Hits(Vec<Hit<S>>),
    HitsWithExtras { hits: Vec<Hit<S>>, calculation: Option<Calculation> },
    Status {
        indexed_docs: u64,
        last_reindex: Option<Timestamp>,
        errors: u32,
        watcher: Option<WatcherStats>,
        writer: Option<WriterStats>,
        memory: Option<MemoryStats>,
    },
    Visibility { visible: bool },
    Queries(Vec<String>),
    Error(String),
}

}
