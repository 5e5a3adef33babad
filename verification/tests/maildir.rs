use lupa::maildir::{derive_folder, is_message_path, is_tmp_dir, parse_flags, walk_step, WalkStep};

#[test]
fn derive_folder_from_inbox_path() {
    let root = "/home/me/Mail";
    let p = "/home/me/Mail/INBOX/cur/12345.M.host:2,S";
    assert_eq!(derive_folder(root, p), "INBOX");
}

#[test]
fn derive_folder_from_nested_path() {
    let root = "/home/me/Mail";
    let p = "/home/me/Mail/Work/Projects/cur/abc.eml";
    assert_eq!(derive_folder(root, p), "Work/Projects");
}

#[test]
fn derive_folder_root_maildir() {
    let root = "/home/me/Mail";
    let p = "/home/me/Mail/cur/12345:2,";
    assert_eq!(derive_folder(root, p), "INBOX");
}

#[test]
fn is_message_path_only_in_cur_or_new() {
    assert!(is_message_path("/m/INBOX/cur/1:2,S"));
    assert!(is_message_path("/m/INBOX/new/1"));
    assert!(!is_message_path("/m/INBOX/tmp/1"));
    assert!(!is_message_path("/m/INBOX/.msf"));
}

#[test]
fn parse_flags_seen_and_replied() {
    let flags = parse_flags("12345.M.host:2,RS");
    assert!(flags.contains(&"replied"));
    assert!(flags.contains(&"seen"));
    assert_eq!(flags.len(), 2);
}

#[test]
fn parse_flags_none() {
    assert_eq!(parse_flags("12345.M.host"), Vec::<&str>::new());
    assert_eq!(parse_flags("12345.M.host:2,"), Vec::<&str>::new());
}

#[test]
fn parse_flags_ignores_unknown() {
    let flags = parse_flags("1:2,SXYZF");
    assert!(flags.contains(&"seen"));
    assert!(flags.contains(&"flagged"));
    assert_eq!(flags.len(), 2);
}

#[test]
fn flags_in_order_and_once() {
    assert_eq!(
        parse_flags("1:2,TSTPDRFS"),
        vec!["trashed", "seen", "passed", "draft", "replied", "flagged"]
    );
    assert_eq!(parse_flags("a:2,b:2,F"), vec!["flagged"]);
}

#[test]
fn folder_of_a_message_outside_the_root() {
    assert_eq!(derive_folder("/a", "/b/c/cur/1"), "//b/c");
    assert_eq!(derive_folder("/home/me/Mail/", "/home/me/./Mail//Work/new/1"), "Work");
}

#[test]
fn walk_prunes_tmp_and_keeps_messages() {
    assert!(is_tmp_dir("/m/INBOX/tmp"));
    assert!(is_tmp_dir("/m/INBOX/tmp/"));
    assert!(!is_tmp_dir("/m/INBOX/tmp/1"));
    assert_eq!(walk_step("/m/INBOX/tmp", false), WalkStep::Prune);
    assert_eq!(walk_step("/m/INBOX/cur", false), WalkStep::Pass);
    assert_eq!(walk_step("/m/INBOX/cur/1", true), WalkStep::Keep);
    assert_eq!(walk_step("/m/INBOX/cur/1", false), WalkStep::Pass);
    assert_eq!(walk_step("/m/INBOX/x", true), WalkStep::Pass);
}
