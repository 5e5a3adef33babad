use lupa::fs::{mtime_secs, Content, FsSource};
use lupa::model::{Action, Category};
use lupa::registry::SourceRegistry;
use lupa::source::{
    IndexerSource, Mutation, MutationSink, SourceContext, SourceEvent, SourceEventKind,
};
use std::sync::Mutex;

struct CaptureSink(Mutex<Vec<Mutation>>);

impl MutationSink for CaptureSink {
    fn emit(&self, mutation: Mutation) -> Result<(), String> {
        self.0.lock().unwrap().push(mutation);
        Ok(())
    }
}

struct StubSource;

impl IndexerSource for StubSource {
    type Field = u32;

    fn kind(&self) -> &'static str {
        "stub"
    }

    fn reindex_full<K: MutationSink>(&self, ctx: &SourceContext, sink: &K) -> Result<(), String> {
        sink.emit(Mutation::DeleteSourceInstance {
            instance_id: ctx.instance_id.to_string(),
        })?;
        sink.emit(Mutation::Delete {
            doc_id: "stub:1".into(),
        })?;
        Ok(())
    }
}

#[test]
fn indexer_source_reindex_full_emits_expected_mutations() {
    let sink = CaptureSink(Mutex::new(Vec::new()));
    let ctx = SourceContext {
        instance_id: "s1",
        state_dir: "/tmp",
    };
    StubSource.reindex_full(&ctx, &sink).unwrap();

    let collected = sink.0.into_inner().unwrap();
    assert_eq!(collected.len(), 2);
    match &collected[0] {
        Mutation::DeleteSourceInstance { instance_id } => assert_eq!(instance_id, "s1"),
        _ => panic!("first mutation must be DeleteSourceInstance"),
    }
    match &collected[1] {
        Mutation::Delete { doc_id } => assert_eq!(doc_id, "stub:1"),
        _ => panic!("second mutation must be Delete"),
    }
}

#[test]
fn what_a_source_does_by_default() {
    let sink = CaptureSink(Mutex::new(Vec::new()));
    let ctx = SourceContext { instance_id: "s1", state_dir: "/tmp" };
    assert_eq!(StubSource.watch_paths(&ctx).unwrap().len(), 0);
    assert!(StubSource.tick_interval().is_none());
    StubSource.on_tick(&ctx, &sink).unwrap();
    let event = SourceEvent {
        path: "/a".to_string(),
        kind: SourceEventKind::Renamed { from: "/b".to_string() },
    };
    StubSource.on_fs_events(&ctx, &vec![event.clone()], &sink).unwrap();
    assert!(StubSource.reindex_on_schema_wipe());
    assert!(StubSource.extra_fields().is_empty());
    assert!(sink.0.into_inner().unwrap().is_empty());
}

struct FieldSource(&'static str, Vec<u32>);

impl IndexerSource for FieldSource {
    type Field = u32;

    fn kind(&self) -> &'static str {
        self.0
    }

    fn reindex_full<K: MutationSink>(&self, _: &SourceContext, _: &K) -> Result<(), String> {
        Ok(())
    }

    fn extra_fields(&self) -> Vec<u32> {
        self.1.clone()
    }
}

#[test]
fn registering() {
    let mut r: SourceRegistry<FieldSource> = SourceRegistry::new();
    r.register("one".to_string(), "/state/sources", FieldSource("mail", vec![1, 2]));
    r.register("two".to_string(), "/state/sources", FieldSource("mail", vec![3]));
    r.register("three".to_string(), "/state/sources", FieldSource("apps", vec![]));
    r.register("four".to_string(), "/state/sources", FieldSource("files", vec![4]));
    assert_eq!(r.instances.len(), 4);
    assert_eq!(r.instances[1].instance_id, "two");
    assert_eq!(r.instances[1].state_dir, "/state/sources/mail/two");
    assert_eq!(r.instances[2].state_dir, "/state/sources/apps/three");
    let fields: Vec<(&str, Vec<u32>)> = r.plugin_fields_by_kind;
    assert_eq!(fields.len(), 2);
    assert!(fields.contains(&("mail", vec![1, 2])));
    assert!(fields.contains(&("files", vec![4])));
    assert!(SourceRegistry::<FieldSource>::default().instances.is_empty());
}

#[test]
fn files_to_read() {
    let s = FsSource::new(vec!["/r".to_string()], vec![".git".to_string()], 2);
    assert_eq!(s.name(), "filesystem");
    assert!(s.should_exclude(".git"));
    assert!(!s.should_exclude(".github"));
    assert!(s.reads_content(2 * 1024 * 1024));
    assert!(!s.reads_content(2 * 1024 * 1024 + 1));
    assert!(s.exclude_regex.is_empty());
}

#[test]
fn times_of_files() {
    assert_eq!(mtime_secs(Some(12)), 12);
    assert_eq!(mtime_secs(None), 0);
}

#[test]
fn documents_of_files() {
    let d = FsSource::document("/a/b.txt", 5, 9, Content::Text("body".to_string()));
    assert_eq!(d.id.0, "fs:/a/b.txt");
    assert_eq!(d.category, Category::File);
    assert_eq!(d.title, "b.txt");
    assert_eq!(d.subtitle, "/a/b.txt");
    assert_eq!(d.path, "/a/b.txt");
    assert_eq!(d.body.as_deref(), Some("body"));
    assert_eq!((d.mtime, d.size, d.extract_fail), (5, 9, false));
    assert!(matches!(&d.action, Action::OpenFile { path } if path == "/a/b.txt"));
    let d = FsSource::document("/a/b", 0, 0, Content::Text(String::new()));
    assert!(d.body.is_none() && !d.extract_fail);
    let d = FsSource::document("/a/b", 0, 0, Content::Failed);
    assert!(d.body.is_none() && d.extract_fail);
    let d = FsSource::document("/a/b", 0, 0, Content::NotRead);
    assert!(d.body.is_none() && !d.extract_fail);
}
