use lupa::query_log::QueryLog;

fn strs(v: &[&str]) -> Vec<String> {
    v.iter().map(|s| s.to_string()).collect()
}

#[test]
fn record_and_recent() {
    let mut log = QueryLog::default();
    log.record_query("foo");
    log.record_query("bar");
    log.record_query("baz");
    let recent = log.recent(10);
    assert_eq!(recent, vec!["baz", "bar", "foo"]);
}

#[test]
fn deduplicates_move_to_front() {
    let mut log = QueryLog::default();
    log.record_query("foo");
    log.record_query("bar");
    log.record_query("foo");
    let recent = log.recent(10);
    assert_eq!(recent, vec!["foo", "bar"]);
}

#[test]
fn truncates_to_max() {
    let mut log = QueryLog::with_entries(Vec::new(), 3);
    for i in 0..10 {
        log.record_query(&format!("q{i}"));
    }
    let recent = log.recent(100);
    assert_eq!(recent.len(), 3);
    assert_eq!(recent, vec!["q9", "q8", "q7"]);
}

#[test]
fn skips_empty_and_whitespace() {
    let mut log = QueryLog::default();
    log.record_query("");
    log.record_query("   ");
    log.record_query("\t\n");
    assert_eq!(log.recent(10).len(), 0);
}

#[test]
fn trims_whitespace() {
    let mut log = QueryLog::default();
    log.record_query("  foo  ");
    assert_eq!(log.recent(10), vec!["foo"]);
}

#[test]
fn recent_respects_n() {
    let mut log = QueryLog::default();
    for i in 0..5 {
        log.record_query(&format!("q{i}"));
    }
    let recent = log.recent(3);
    assert_eq!(recent, vec!["q4", "q3", "q2"]);
}

#[test]
fn default_limit_is_one_hundred() {
    let mut log = QueryLog::default();
    assert_eq!(log.limit(), 100);
    for i in 0..150 {
        log.record_query(&format!("q{i}"));
    }
    let recent = log.recent(1000);
    assert_eq!(recent.len(), 100);
    assert_eq!(recent[0], "q149");
    assert_eq!(recent[99], "q50");
}

#[test]
fn restored_log_keeps_entries_and_mends_limit() {
    let log = QueryLog::restored(Some((strs(&["a", "b"]), 0)));
    assert_eq!(log.limit(), 100);
    assert_eq!(log.recent(10), vec!["a", "b"]);
    let log = QueryLog::restored(Some((strs(&["a", "b"]), 7)));
    assert_eq!(log.limit(), 7);
    let log = QueryLog::restored(None);
    assert_eq!(log.limit(), 100);
    assert_eq!(log.recent(10).len(), 0);
}

#[test]
fn repeated_entries_of_a_saved_log_leave_together() {
    let mut log = QueryLog::restored(Some((strs(&["x", "a", "x", "b"]), 10)));
    log.record_query("x");
    assert_eq!(log.recent(10), vec!["x", "a", "b"]);
}

#[test]
fn recording_twice_is_recording_once() {
    let mut once = QueryLog::with_entries(strs(&["a", "b", "c"]), 3);
    let mut twice = QueryLog::with_entries(strs(&["a", "b", "c"]), 3);
    once.record_query("d");
    twice.record_query("d");
    twice.record_query(" d ");
    assert_eq!(once.recent(9), vec!["d", "a", "b"]);
    assert_eq!(once.recent(9), twice.recent(9));
}

#[test]
fn unicode_white_space_is_trimmed() {
    let mut log = QueryLog::default();
    log.record_query("\u{3000}caf\u{e9}\u{a0}");
    assert_eq!(log.recent(1), vec!["caf\u{e9}"]);
}

#[test]
fn save_and_load_roundtrip() {
    let mut log = QueryLog::default();
    log.record_query("alpha");
    log.record_query("beta");
    let text = serde_json::to_string(&log.saved()).unwrap();

    let loaded = QueryLog::restored(serde_json::from_str(&text).ok());
    assert_eq!(loaded.recent(10), vec!["beta", "alpha"]);
    assert_eq!(loaded.limit(), 100);
}

#[test]
fn load_missing_returns_empty() {
    let log = QueryLog::restored(None);
    assert_eq!(log.recent(10).len(), 0);
}

#[test]
fn saved_log_keeps_its_limit() {
    let log = QueryLog::with_entries(strs(&["a", "b", "c"]), 2);
    let loaded = QueryLog::restored(Some(log.saved()));
    assert_eq!(loaded.limit(), 2);
    assert_eq!(loaded.recent(2), vec!["a", "b"]);
    assert_eq!(loaded.recent(9), vec!["a", "b", "c"]);
}
