use lupa::manifest::Manifest;
use lupa::string_map::StringMap;

#[test]
fn test_default_manifest_is_empty() {
    let m = Manifest::default();
    assert_eq!(m.len(), 0);
}

#[test]
fn test_update_and_is_unchanged() {
    let mut m = Manifest::default();
    m.update("/tmp/test.txt".to_string(), 12345);
    assert!(m.is_unchanged("/tmp/test.txt", 12345));
    assert!(!m.is_unchanged("/tmp/test.txt", 99999));
    assert!(!m.is_unchanged("/tmp/other.txt", 12345));
}

#[test]
fn test_remove() {
    let mut m = Manifest::default();
    m.update("/tmp/test.txt".to_string(), 12345);
    assert_eq!(m.len(), 1);
    m.remove("/tmp/test.txt");
    assert_eq!(m.len(), 0);
    assert!(!m.is_unchanged("/tmp/test.txt", 12345));
}

#[test]
fn test_known_paths() {
    let mut m = Manifest::default();
    m.update("/a.txt".to_string(), 1);
    m.update("/b.txt".to_string(), 2);
    m.update("/c.txt".to_string(), 3);
    let paths: Vec<_> = m.known_paths().into_iter().collect();
    assert_eq!(paths.len(), 3);
}

#[test]
fn test_update_overwrites_mtime() {
    let mut m = Manifest::default();
    m.update("/tmp/test.txt".to_string(), 100);
    m.update("/tmp/test.txt".to_string(), 200);
    assert!(m.is_unchanged("/tmp/test.txt", 200));
    assert!(!m.is_unchanged("/tmp/test.txt", 100));
    assert_eq!(m.len(), 1);
}

#[test]
fn emptiness_and_recorded_times() {
    let mut m = Manifest::default();
    assert!(m.is_empty());
    m.update("/a".to_string(), -5);
    assert!(!m.is_empty());
    assert_eq!(m.saved(), vec![("/a".to_string(), -5)]);
    m.remove("/b");
    assert_eq!(m.len(), 1);
    m.remove("/a");
    assert!(m.is_empty());
    assert!(m.known_paths().is_empty());
}

#[test]
fn files_that_are_gone() {
    let mut m = Manifest::default();
    for (p, t) in [("/a", 1), ("/b", 2), ("/c", 3)] {
        m.update(p.to_string(), t);
    }
    let mut seen: StringMap<bool> = StringMap::new();
    seen.insert("/b".to_string(), true);
    seen.insert("/new".to_string(), true);
    let mut gone = m.forget_missing(&seen);
    gone.sort();
    assert_eq!(gone, vec!["/a", "/c"]);
    assert_eq!(m.len(), 1);
    assert!(m.is_unchanged("/b", 2));
}

#[test]
fn files_to_index() {
    let mut m = Manifest::default();
    m.update("/a".to_string(), 1);
    assert!(!m.needs_indexing("/a", 1, true));
    assert!(m.needs_indexing("/a", 1, false));
    assert!(m.needs_indexing("/a", 2, true));
    assert!(m.needs_indexing("/b", 1, true));
}

#[test]
fn test_save_and_load_roundtrip() {
    let mut m = Manifest::default();
    m.update("/tmp/a.txt".to_string(), 100);
    m.update("/tmp/b.txt".to_string(), 200);
    let text = serde_json::to_string(&m.saved()).unwrap();

    let loaded = Manifest::restored(serde_json::from_str(&text).ok());
    assert!(loaded.is_unchanged("/tmp/a.txt", 100));
    assert!(loaded.is_unchanged("/tmp/b.txt", 200));
    assert_eq!(loaded.len(), 2);
}

#[test]
fn test_load_nonexistent_returns_default() {
    let m = Manifest::restored(None);
    assert_eq!(m.len(), 0);
}

#[test]
fn test_load_corrupt_json_returns_default() {
    let m = Manifest::restored(serde_json::from_str("not json").ok());
    assert_eq!(m.len(), 0);
}

#[test]
fn later_pairs_win() {
    let pair = |t: i64| ("/a".to_string(), t);
    let m = Manifest::restored(Some(vec![pair(1), pair(2)]));
    assert!(m.is_unchanged("/a", 2));
    assert_eq!(m.len(), 1);
}
