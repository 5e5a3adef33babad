use lupa::daemon::{
    collect_watcher_stats, collect_writer_stats, instance_id, register_builtin_sources,
    reindex_failed, search_reply, BuiltinKind, Daemon, GuiState, GuiStep, IndexStats,
    MaildirSettings, Step, ThunderbirdSettings,
};
use lupa::history::ClickHistory;
use lupa::index::{
    build_fuzzy_query, needs_rebuild, parse_category, stored_fields, stored_hit, Occur,
    SearchField, StoredFields, INDEX_VERSION,
};
use lupa::indexer::{
    reindex_paths, reindexes_all, IndexRun, PathKind, PathWork, RunAction, RunKind,
};
use lupa::messages::{Calculation, MemoryStats, Request, Response, Timestamp};
use lupa::model::{Action, Category, DocId, Document, Hit};
use lupa::process::{collect_memory_stats, process_alive};
use lupa::query_log::QueryLog;
use lupa::ranking::rank_hits;
use lupa::shell::{
    extract_doc, extract_pdf, extract_ppt, extract_xls, temp_name, CommandRunner, RunEnd,
    SystemRunner, TimeLimit,
};
use lupa::watch::{
    cooldown_expired, fs_doc_id, has_app_events, has_mbox_events, plan_events, EventPath, FsEvent,
    FsEventKind, SourceWatcher,
};

fn daemon() -> Daemon {
    Daemon {
        gui: GuiState::default(),
        stats: IndexStats::default(),
        history: ClickHistory::default(),
        query_log: QueryLog::default(),
    }
}

fn visible(r: Response<f32>) -> bool {
    match r {
        Response::Visibility { visible } => visible,
        _ => panic!("expected the visibility"),
    }
}

#[test]
fn toggling_the_launcher() {
    let mut d = daemon();
    assert!(matches!(d.accept::<f32>(Request::Toggle, false, false), Step::Spawn));
    assert!(visible(d.gui_spawned(77)));
    match d.accept::<f32>(Request::Toggle, true, false) {
        Step::Terminate { pid, reply } => {
            assert_eq!(pid, Some(77));
            assert!(!visible(reply));
        }
        _ => panic!("expected an end"),
    }
    assert!(!d.gui.visible && d.gui.pid.is_none());
}

#[test]
fn a_dead_launcher_is_started_anew() {
    let mut d = daemon();
    d.gui_spawned::<f32>(5);
    assert!(matches!(d.accept::<f32>(Request::Show, true, false), Step::Reply(_)));
    assert!(matches!(d.accept::<f32>(Request::Show, false, false), Step::Spawn));
    d.gui_spawned::<f32>(6);
    d.gui.exited(5);
    assert!(d.gui.visible);
    d.gui.exited(6);
    assert!(!d.gui.visible);
    match d.accept::<f32>(Request::Hide, false, false) {
        Step::Terminate { pid, reply } => assert!(pid.is_none() && !visible(reply)),
        _ => panic!("expected an end"),
    }
    let mut g = GuiState::default();
    g.spawned(1);
    assert_eq!(g.toggle(false), GuiStep::Spawn);
}

#[test]
fn recording() {
    let mut d = daemon();
    for q in ["one", " two ", "one"] {
        d.accept::<f32>(Request::RecordQuery { q: q.to_string() }, false, false);
    }
    d.accept::<f32>(Request::RecordQuery { q: "2+2".to_string() }, false, true);
    match d.accept::<f32>(Request::SearchHistory { limit: 5 }, false, false) {
        Step::Reply(Response::Queries(v)) => assert_eq!(v, vec!["one", "two"]),
        _ => panic!("expected the queries"),
    }
    d.accept::<f32>(Request::RecordClick { doc_id: "x".to_string() }, false, false);
    d.accept::<f32>(Request::RecordClick { doc_id: "x".to_string() }, false, false);
    assert_eq!(d.history.count("x"), 2);
    assert_eq!(d.history.count("y"), 0);
}

#[test]
fn requests_with_work_outside() {
    let mut d = daemon();
    match d.accept::<f32>(Request::Search { q: "q".to_string(), limit: 4 }, false, false) {
        Step::Search { q, limit } => assert_eq!((q.as_str(), limit), ("q", 4)),
        _ => panic!("expected a search"),
    }
    assert!(matches!(
        d.accept::<f32>(Request::Reindex { paths: vec![] }, false, false),
        Step::Reindex { .. }
    ));
    assert!(matches!(d.accept::<f32>(Request::Status, false, false), Step::Report));
    let preview = Request::Preview { hit: Box::new(hit("p", 1.0)) };
    match d.accept(preview, false, false) {
        Step::Preview { hit } => assert_eq!(hit.id.0, "p"),
        _ => panic!("expected a preview"),
    }
}

#[test]
fn counters() {
    let mut d = daemon();
    let now = Timestamp { secs: 9, nanos: 1 };
    d.stats.indexed_at_start(0, 0, now);
    assert!(d.stats.last_reindex.is_none());
    d.stats.indexed_at_start(2, 3, now);
    d.stats.reindexed(4, now);
    let watcher = collect_watcher_stats(1, 2, 3, 4);
    let writer = collect_writer_stats(5, 1 << 40, 6);
    match d.status::<f32>(watcher, writer, collect_memory_stats(None)) {
        Response::Status { indexed_docs, last_reindex, errors, watcher, writer, memory } => {
            assert_eq!((indexed_docs, errors), (9, 0));
            assert_eq!(last_reindex, Some(now));
            assert_eq!(watcher.unwrap().overflow_events, 4);
            assert_eq!(writer.unwrap().last_commit_latency_ms, u32::MAX);
            assert_eq!(memory.unwrap().rss_bytes, 0);
        }
        _ => panic!("expected the counters"),
    }
}

fn hit(id: &str, score: f32) -> Hit<f32> {
    Hit {
        id: DocId(id.to_string()),
        category: Category::File,
        title: String::new(),
        subtitle: String::new(),
        icon_name: None,
        kind_label: None,
        score,
        action: Action::OpenFile { path: String::new() },
        extract_fail: false,
    }
}

#[test]
fn replies_to_searches() {
    let calc = || Some(Calculation { expr: "1+1".to_string(), result: "2".to_string() });
    assert!(matches!(
        search_reply(1, Ok(vec![hit("a", 1.0)]), calc()),
        Response::Hits(h) if h.len() == 1
    ));
    match search_reply(2, Ok(vec![hit("a", 1.0)]), calc()) {
        Response::HitsWithExtras { hits, calculation } => {
            assert_eq!(hits.len(), 1);
            assert_eq!(calculation.unwrap().result, "2");
        }
        _ => panic!("expected extras"),
    }
    assert!(matches!(
        search_reply::<f32>(2, Err("bad".to_string()), None),
        Response::Error(e) if e == "bad"
    ));
    assert!(matches!(
        reindex_failed::<f32>("disk"),
        Response::Error(e) if e == "Reindex failed: disk"
    ));
}

#[test]
fn order_of_hits() {
    let hits = vec![hit("a", 1.0), hit("b", 3.0), hit("c", 1.0), hit("d", 2.0)];
    let keys = vec![10, 30, 10, 20];
    let ranked = rank_hits(&hits, &keys);
    let ids: Vec<&str> = ranked.iter().map(|h| h.id.0.as_str()).collect();
    assert_eq!(ids, vec!["b", "d", "a", "c"]);
}

#[test]
fn sources_at_start() {
    let mut t = ThunderbirdSettings {
        enabled: true,
        profile: Some("/p".to_string()),
        profile_exists: true,
        attachments: true,
    };
    let dirs = vec![MaildirSettings {
        id: "personal".to_string(),
        paths: vec!["/m".to_string()],
        open_cmd: None,
    }];
    let names = |t: &ThunderbirdSettings| -> Vec<String> {
        register_builtin_sources(t, &dirs)
            .into_iter()
            .map(|k| instance_id(k, &dirs))
            .collect()
    };
    assert_eq!(
        names(&t),
        vec!["builtin:apps", "builtin:gloda", "builtin:tb_attachments", "builtin:fs", "personal"]
    );
    t.attachments = false;
    assert_eq!(names(&t), vec!["builtin:apps", "builtin:gloda", "builtin:fs", "personal"]);
    t.profile_exists = false;
    assert_eq!(names(&t), vec!["builtin:apps", "builtin:fs", "personal"]);
    assert_eq!(register_builtin_sources(&t, &vec![]), vec![BuiltinKind::Apps, BuiltinKind::Files]);
}

#[test]
fn processes() {
    assert!(!process_alive(false, Some("State:\tR (running)\n")));
    assert!(!process_alive(true, None));
    assert!(process_alive(true, Some("Name:\tx\nState:\tS (sleeping)\n")));
    assert!(!process_alive(true, Some("State:  Z (zombie)\n")));
    assert!(!process_alive(true, Some("State:\tX (dead)\n")));
    assert!(process_alive(true, Some("Name:\tx\n")));
}

#[test]
fn memory() {
    let m: MemoryStats = collect_memory_stats(Some(
        "VmPeak:\t    20 kB\nVmSize:  10 kB\nVmRSS:\t3 kB\nVmSwap:\tx kB\nThreads 4\nOther: 9\n",
    ));
    assert_eq!(m.vm_peak_bytes, 20480);
    assert_eq!(m.vm_size_bytes, 10240);
    assert_eq!(m.rss_bytes, 3072);
    assert_eq!(m.vm_swap_bytes, 0);
    let huge = collect_memory_stats(Some("VmRSS: 18446744073709551615 kB"));
    assert_eq!(huge.rss_bytes, u64::MAX);
}

#[test]
fn clauses_of_a_query() {
    assert!(build_fuzzy_query("  ").is_empty());
    let clauses = build_fuzzy_query("hello indexing -draft -");
    assert_eq!(clauses.len(), 4);
    let occurs: Vec<Occur> = clauses.iter().map(|c| c.occur).collect();
    assert_eq!(occurs, vec![Occur::Must, Occur::Must, Occur::MustNot, Occur::Must]);
    let terms = &clauses[0].terms;
    assert_eq!(terms.len(), 3);
    assert_eq!(terms[0].term, "hello");
    assert_eq!(terms[0].distance, 1);
    assert!(matches!(terms[0].field, SearchField::Title));
    assert!(matches!(terms[1].field, SearchField::Body));
    assert!(matches!(terms[2].field, SearchField::Path));
    assert_eq!((clauses[1].terms[2].term.as_str(), clauses[1].terms[2].distance), ("indexing", 2));
    assert_eq!(clauses[2].terms[0].term, "draft");
    assert_eq!(clauses[3].terms[0].term, "-");
    assert_eq!(build_fuzzy_query("\u{e9}\u{e9}\u{e9}")[0].terms[0].distance, 2);
    assert_eq!(build_fuzzy_query("chr")[0].terms[0].distance, 1);
    assert_eq!(build_fuzzy_query("chrm")[0].terms[0].distance, 2);
    assert_eq!(build_fuzzy_query("chrom")[0].terms[0].distance, 1);
    assert_eq!(build_fuzzy_query("chrome")[0].terms[0].distance, 2);
}

fn document() -> Document {
    Document {
        id: DocId("fs:/tmp/test.txt".to_string()),
        category: Category::Attachment,
        title: "test.txt".to_string(),
        subtitle: "/tmp/test.txt".to_string(),
        icon_name: None,
        kind_label: None,
        body: Some("hello world".to_string()),
        path: "/tmp/test.txt".to_string(),
        mtime: 0,
        size: 100,
        action: Action::OpenFile { path: "/tmp/test.txt".to_string() },
        extract_fail: true,
    }
}

#[test]
fn fields_of_the_index() {
    let (fields, body) = stored_fields(&document());
    assert_eq!(body, "hello world");
    let h = stored_hit(fields, 2.5f32);
    assert_eq!(h.id.0, "fs:/tmp/test.txt");
    assert_eq!(h.category, Category::Attachment);
    assert_eq!(h.title, "test.txt");
    assert_eq!(h.subtitle, "/tmp/test.txt");
    assert_eq!(h.score, 2.5);
    assert!(h.extract_fail);
    assert!(matches!(&h.action, Action::OpenFile { path } if path == "/tmp/test.txt"));
    let empty = StoredFields {
        id: None,
        category: None,
        title: None,
        subtitle: None,
        action: None,
        extract_fail: None,
    };
    let h = stored_hit(empty, 0.0f32);
    assert_eq!(h.id.0, "?");
    assert_eq!(h.category, Category::File);
    assert!(matches!(&h.action, Action::OpenFile { path } if path.is_empty()));
    assert_eq!(parse_category("mail"), Category::Mail);
    assert_eq!(parse_category("?"), Category::File);
}

#[test]
fn a_full_run() {
    let mut run = IndexRun::new(RunKind::Full);
    assert!(matches!(run.batch(vec![document(), document()]), RunAction::Upsert(v) if v.len() == 2));
    assert!(matches!(run.walked(vec!["gone".to_string()]), RunAction::Nothing));
    assert!(matches!(run.source(vec![document()]), RunAction::Upsert(_)));
    assert!(matches!(run.finish(), RunAction::Commit));
    let o = run.outcome();
    assert_eq!((o.fs_docs, o.other_docs, o.total_docs), (2, 1, 3));
}

#[test]
fn an_incremental_run() {
    let mut run = IndexRun::new(RunKind::Incremental);
    run.batch(vec![document()]);
    assert!(matches!(run.walked(vec!["gone".to_string()]), RunAction::Delete(v) if v == ["gone"]));
    assert!(matches!(run.finish(), RunAction::SaveManifest));
    let mut run = IndexRun::new(RunKind::Incremental);
    assert!(matches!(run.walked(Vec::new()), RunAction::Nothing));
}

#[test]
fn paths_to_index_anew() {
    let work = reindex_paths(&vec![PathKind::File, PathKind::Neither, PathKind::Directory]);
    assert_eq!(work.len(), 2);
    assert!(matches!(work[0], PathWork::IndexFile(0)));
    assert!(matches!(work[1], PathWork::WalkDirectory(2)));
    assert!(reindexes_all(&vec![]));
    assert!(!reindexes_all(&vec!["/a".to_string()]));
}

fn event(kind: FsEventKind, path: &str, is_file: bool) -> FsEvent {
    FsEvent { kind, paths: vec![EventPath { path: path.to_string(), is_file }] }
}

#[test]
fn events_of_files() {
    let events = vec![
        event(FsEventKind::Removed, "/a", false),
        event(FsEventKind::RenamedFrom, "/.git/b", false),
        event(FsEventKind::RenamedTo, "/c", true),
        event(FsEventKind::CreatedOrModified, "/d", false),
        event(FsEventKind::CreatedOrModified, "/.git/e", true),
        event(FsEventKind::CreatedOrModified, "/f", true),
        event(FsEventKind::Other, "/g", true),
    ];
    let plan = plan_events(&events, &vec![".git".to_string()], &vec![]);
    assert_eq!(plan.deletes, vec!["fs:/a", "fs:/.git/b"]);
    assert_eq!(plan.upserts, vec!["/c", "/f"]);
    assert_eq!(fs_doc_id("/x"), "fs:/x");
}

#[test]
fn events_of_sources() {
    let apps = vec![event(FsEventKind::Removed, "/a/x.desktop", false)];
    let mbox = vec![event(FsEventKind::Other, "/m/Inbox", true)];
    let msf = vec![event(FsEventKind::Other, "/m/Inbox.msf", true)];
    assert!(has_app_events(&apps) && !has_app_events(&mbox));
    assert!(has_mbox_events(&mbox) && !has_mbox_events(&msf) && !has_mbox_events(&apps));
    let mut w = SourceWatcher::default();
    assert!(w.apps_due(&apps, 5) && w.attachments_due(&mbox, 5));
    w.apps_indexed(5);
    w.attachments_indexed(6);
    assert!(!w.apps_due(&apps, 30_004));
    assert!(w.apps_due(&apps, 30_005));
    assert!(!w.attachments_due(&mbox, 30_005));
    assert!(!w.attachments_due(&msf, 90_000));
    assert!(cooldown_expired(None, 0));
}

#[test]
fn clicks_are_kept_apart() {
    let mut h = ClickHistory::restored(Some(vec![("a".to_string(), 7)]));
    h.record_click("a");
    h.record_click("b");
    assert_eq!((h.count("a"), h.count("b"), h.count("c")), (8, 1, 0));
    let mut saved = h.saved();
    saved.sort();
    assert_eq!(saved, vec![("a".to_string(), 8), ("b".to_string(), 1)]);
    let back = ClickHistory::restored(Some(saved));
    assert_eq!((back.count("a"), back.count("b"), back.count("c")), (8, 1, 0));
    assert!(ClickHistory::restored(None).saved().is_empty());
}

#[test]
fn version_of_the_index() {
    assert!(needs_rebuild(None));
    assert!(needs_rebuild(Some("0")));
    assert!(needs_rebuild(Some("")));
    assert!(!needs_rebuild(Some(INDEX_VERSION)));
    assert!(!needs_rebuild(Some(" 1\n")));
}

#[test]
fn limits_below_a_second() {
    let half = SystemRunner { timeout: TimeLimit { secs: 0, nanos: 500_000_000 } };
    assert!(half.limits_time());
    assert!(!half.timeout.is_zero() && TimeLimit::from_secs(0).is_zero());
    let message = half.outcome("catdoc", &RunEnd::TimedOut);
    assert_eq!(message, Err("extractor 'catdoc' timed out after 0s".to_string()));
}

#[test]
fn ends_of_programs() {
    let r = SystemRunner::new(3);
    assert!(r.limits_time());
    assert!(!SystemRunner::new(0).limits_time());
    let ok = RunEnd::Exited { success: true, stdout: b"text\xff".to_vec(), stderr: vec![] };
    assert_eq!(r.outcome("x", &ok).unwrap(), "text\u{fffd}");
    let bad = RunEnd::Exited { success: false, stdout: vec![], stderr: b"why".to_vec() };
    assert_eq!(r.outcome("tool", &bad).unwrap_err(), "tool failed: why");
    assert_eq!(
        r.outcome("tool", &RunEnd::TimedOut).unwrap_err(),
        "extractor 'tool' timed out after 3s"
    );
    assert_eq!(temp_name(12, "doc"), "lupa-shell-12.doc");
}

struct EchoRunner;

impl CommandRunner for EchoRunner {
    fn run(&self, cmd: &str, args: &Vec<String>, input: Option<Vec<u8>>) -> Result<String, String> {
        assert!(input.is_none());
        if args[0].is_empty() {
            return Err("no file".to_string());
        }
        Ok(format!("{cmd} {}", args.join(" ")))
    }
}

#[test]
fn programs_for_office_files() {
    assert_eq!(extract_doc("/t/a.doc", &EchoRunner).unwrap(), "antiword -m UTF-8 /t/a.doc");
    assert_eq!(extract_xls("/t/a.xls", &EchoRunner).unwrap(), "catdoc /t/a.xls");
    assert_eq!(extract_ppt("/t/a.ppt", &EchoRunner).unwrap(), "libreoffice --headless --cat /t/a.ppt");
    assert_eq!(
        extract_pdf("/t/a.pdf", &EchoRunner).unwrap(),
        "pdftotext -layout -enc UTF-8 /t/a.pdf -"
    );
    assert_eq!(extract_xls("", &EchoRunner), Err("no file".to_string()));
}
