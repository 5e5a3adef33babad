//! What a source of documents is, and what it tells the index.
use crate::model::Document;
use vstd::prelude::*;
use vstd::string::*;

verus! {

/// Where a source runs: the name of the instance and the directory for its state.
pub struct SourceContext<'a> {
    pub instance_id: &'a str,
    pub state_dir: &'a str,
}

/// A path that a source wants to hear about.
pub struct WatchSpec {
    pub path: String,
    pub recursive: bool,
}

/// What happened to a path.
#[derive(Debug)]
pub struct SourceEvent {
    pub path: String,
    pub kind: SourceEventKind,
}

/// The kinds of change to a path.
#[derive(Debug)]
pub enum SourceEventKind {
    Created,
    Modified,
    Removed,
    Renamed { from: String },
}

impl Clone for SourceEventKind {
    fn clone(&self) -> (r: Self)
        ensures
            r == *self,
    {
        match self {
            SourceEventKind::Created => SourceEventKind::Created,
            SourceEventKind::Modified => SourceEventKind::Modified,
            SourceEventKind::Removed => SourceEventKind::Removed,
            SourceEventKind::Renamed { from } => SourceEventKind::Renamed { from: from.clone() },
        }
    }
}

impl Clone for SourceEvent {
    fn clone(&self) -> (r: Self)
        ensures
            r == *self,
    {
        SourceEvent { path: self.path.clone(), kind: self.kind.clone() }
    }
}

/// A change to the index.
pub enum Mutation {
    Upsert(Box<Document>),
    Delete { doc_id: String },
    DeleteSourceInstance { instance_id: String },
}

/// Takes changes to the index.
pub trait MutationSink {
    fn emit(&self, mutation: Mutation) -> (r: Result<(), String>);
}

/// A source of documents.
pub trait IndexerSource {
    /// A field that the source adds to the documents in the index.
    type Field;

    /// The kind of the source.
    fn kind(&self) -> (r: &'static str);

    /// The paths that the source wants to hear about: none, unless it says so.
    fn watch_paths(&self, ctx: &SourceContext) -> (r: Result<Vec<WatchSpec>, String>)
        default_ensures
            r matches Ok(v) && v@.len() == 0,
    {
        Ok(Vec::new())
    }

    /// How often, in seconds, the source wants to be called: never, unless it says so.
    fn tick_interval(&self) -> (r: Option<u64>)
        default_ensures
            r is None,
    {
        None
    }

    /// Called at that interval.
    fn on_tick<K: MutationSink>(&self, ctx: &SourceContext, sink: &K) -> (r: Result<(), String>)
        default_ensures
            r is Ok,
    {
        Ok(())
    }

    /// Called with the changes to the watched paths.
    fn on_fs_events<K: MutationSink>(
        &self,
        ctx: &SourceContext,
        events: &Vec<SourceEvent>,
        sink: &K,
    ) -> (r: Result<(), String>)
        default_ensures
            r is Ok,
    {
        Ok(())
    }

    /// Sends every document of the source to the index.
    fn reindex_full<K: MutationSink>(&self, ctx: &SourceContext, sink: &K) -> (r: Result<
        (),
        String,
    >);

    /// Whether the source takes part in the full reindexing after the index was wiped: it
    /// does, unless it says that this costs too much to be done unasked.
    fn reindex_on_schema_wipe(&self) -> (r: bool)
        default_ensures
            r,
    {
        true
    }

    /// The fields that the source adds: none, unless it says so.
    fn extra_fields(&self) -> (r: Vec<Self::Field>)
        default_ensures
            r@.len() == 0,
    {
        Vec::new()
    }
}

}
