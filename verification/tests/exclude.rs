use lupa::exclude::{path_excluded, should_exclude, PathPattern};

fn re(s: &str) -> PathPattern {
    PathPattern::new(s).unwrap()
}

#[test]
fn should_exclude_matches_substring() {
    let exclude: Vec<String> = vec![".cache".into(), "node_modules".into(), ".swp".into()];
    assert!(should_exclude("/home/u/.cache/foo", &exclude));
    assert!(should_exclude("/home/u/p/node_modules/x", &exclude));
    assert!(should_exclude("/home/u/tmp/.file.swp", &exclude));
    assert!(!should_exclude("/home/u/tmp/file.txt", &exclude));
}

#[test]
fn should_exclude_empty_list() {
    let exclude: Vec<String> = vec![];
    assert!(!should_exclude("/any/path", &exclude));
}

#[test]
fn empty_lists_never_exclude() {
    assert!(!path_excluded("/any/path.txt", &vec![], &vec![]));
}

#[test]
fn substring_matches_anywhere_in_path() {
    let subs = vec!["node_modules".to_string()];
    assert!(path_excluded("/home/me/proj/node_modules/lib/x.js", &subs, &vec![]));
    assert!(path_excluded("/tmp/node_modules", &subs, &vec![]));
    assert!(!path_excluded("/home/me/src/main.rs", &subs, &vec![]));
}

#[test]
fn regex_anchored_to_extension() {
    let res = vec![re(r"\.pyc$")];
    assert!(path_excluded("/a/b/foo.pyc", &vec![], &res));
    assert!(!path_excluded("/a/b/foo.py", &vec![], &res));
    assert!(!path_excluded("/a/b/.pyc.txt", &vec![], &res));
}

#[test]
fn regex_libreoffice_lock_file() {
    let res = vec![re(r"\.~lock\..*#$")];
    assert!(path_excluded("/home/u/Docs/.~lock.Report.xlsx#", &vec![], &res));
    assert!(!path_excluded("/home/u/Docs/Report.xlsx", &vec![], &res));
}

#[test]
fn substring_or_regex_short_circuits() {
    let subs = vec![".git".to_string()];
    let res = vec![re(r"\.log$")];
    assert!(path_excluded("/repo/.git/HEAD", &subs, &res));
    assert!(path_excluded("/var/app.log", &subs, &res));
    assert!(!path_excluded("/home/u/notes.md", &subs, &res));
}

#[test]
fn substring_case_sensitive() {
    let subs = vec!["CACHE".to_string()];
    assert!(!path_excluded("/home/u/.cache/x", &subs, &vec![]));
    assert!(path_excluded("/home/u/CACHE/x", &subs, &vec![]));
}

#[test]
fn invalid_expressions_are_refused() {
    assert!(PathPattern::new("[unclosed").is_none());
    assert!(PathPattern::new("^/ok$").is_some());
}

#[test]
fn empty_substring_excludes_everything() {
    assert!(path_excluded("/a", &vec![String::new()], &vec![]));
}
