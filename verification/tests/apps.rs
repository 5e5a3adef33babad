use lupa::apps::{is_desktop_file, AppsSource};
use lupa::model::{Action, Category};

#[test]
fn test_parse_desktop_file_valid() {
    let result = AppsSource::parse_desktop_file(
        "/tmp/x/firefox.desktop",
        r#"[Desktop Entry]
Name=Firefox
Exec=/usr/bin/firefox %u
Type=Application
Terminal=false
"#,
    );
    assert!(result.is_some());
    let entry = result.unwrap();
    assert_eq!(entry.id, "firefox");
    assert_eq!(entry.name, "Firefox");
    assert_eq!(entry.command, "/usr/bin/firefox");
    assert!(!entry.terminal);
}

#[test]
fn test_parse_desktop_file_removes_field_codes() {
    let entry = AppsSource::parse_desktop_file(
        "/tmp/x/test.desktop",
        r#"[Desktop Entry]
Name=Test
Exec=/usr/bin/test %f %F %u %U
"#,
    )
    .unwrap();
    assert_eq!(entry.command, "/usr/bin/test");
}

#[test]
fn test_parse_desktop_file_terminal_true() {
    let entry = AppsSource::parse_desktop_file(
        "/tmp/x/terminal.desktop",
        r#"[Desktop Entry]
Name=Terminal
Exec=/usr/bin/terminal
Terminal=true
"#,
    )
    .unwrap();
    assert!(entry.terminal);
}

#[test]
fn test_parse_desktop_file_missing_name() {
    assert!(AppsSource::parse_desktop_file(
        "/tmp/x/noname.desktop",
        r#"[Desktop Entry]
Exec=/usr/bin/something
"#,
    )
    .is_none());
}

#[test]
fn test_parse_desktop_file_missing_exec() {
    assert!(AppsSource::parse_desktop_file(
        "/tmp/x/noexec.desktop",
        r#"[Desktop Entry]
Name=No Exec
"#,
    )
    .is_none());
}

#[test]
fn test_parse_desktop_file_ignores_non_desktop_section() {
    let entry = AppsSource::parse_desktop_file(
        "/tmp/x/test.desktop",
        r#"[Desktop Action NewWindow]
Name=New Window
Exec=/usr/bin/test --new-window

[Desktop Entry]
Name=Test App
Exec=/usr/bin/test
"#,
    )
    .unwrap();
    assert_eq!(entry.name, "Test App");
    assert_eq!(entry.command, "/usr/bin/test");
}

#[test]
fn test_index_all_with_temp_dirs() {
    let files = vec![
        (
            "/tmp/x/applications/app1.desktop".to_string(),
            Some("[Desktop Entry]\nName=App One\nExec=/usr/bin/app1\n".to_string()),
        ),
        (
            "/tmp/x/applications/app2.desktop".to_string(),
            Some("[Desktop Entry]\nName=App Two\nExec=/usr/bin/app2\n".to_string()),
        ),
    ];
    let docs = AppsSource::index_files(&files);
    assert_eq!(docs.len(), 2);

    let names: Vec<_> = docs.iter().map(|d| &d.title).collect();
    assert!(names.contains(&&"App One".to_string()));
    assert!(names.contains(&&"App Two".to_string()));
}

#[test]
fn desktop_entry_details() {
    let entry = AppsSource::parse_desktop_file(
        "/a/b.c.desktop",
        "  [Desktop Entry]  \nName=  First \nName=Second\nExec=one\nExec = two  %x  three \n\
         Terminal=TRUE\n[Other]\nTerminal=false\n",
    )
    .unwrap();
    assert_eq!(entry.id, "b.c");
    assert_eq!(entry.name, "First");
    assert_eq!(entry.command, "two three");
    assert!(entry.terminal);
    assert_eq!(entry.working_dir, None);
}

#[test]
fn documents_of_applications() {
    let files = vec![
        ("/a/x.desktop".to_string(), Some("[Desktop Entry]\nName=X\nExec=x -y %U\n".to_string())),
        ("/a/unreadable.desktop".to_string(), None),
        ("/a/other.txt".to_string(), Some("[Desktop Entry]\nName=T\nExec=t\n".to_string())),
        ("/a/bad.desktop".to_string(), Some("nothing".to_string())),
    ];
    let docs = AppsSource::index_files(&files);
    assert_eq!(docs.len(), 1);
    let d = &docs[0];
    assert_eq!(d.id.0, "app:x");
    assert_eq!(d.category, Category::App);
    assert_eq!(d.title, "X");
    assert_eq!(d.subtitle, "x");
    assert_eq!(d.path, "/a/x.desktop");
    assert_eq!((d.mtime, d.size, d.extract_fail), (0, 0, false));
    assert!(d.body.is_none());
    match &d.action {
        Action::Launch { command, terminal, working_dir } => {
            assert_eq!(command, "x -y");
            assert!(!terminal);
            assert!(working_dir.is_none());
        }
        _ => panic!("expected a launch"),
    }
}

#[test]
fn search_directories() {
    let s = AppsSource::new(Some("/a:/b/"), Some("/home/u/.data"), Some("/home/u"));
    assert_eq!(
        s.search_dirs,
        vec!["/a/applications", "/b/applications", "/home/u/.data/applications"]
    );
    let s = AppsSource::new(None, None, Some("/home/u"));
    assert_eq!(
        s.search_dirs,
        vec![
            "/usr/share/applications",
            "/usr/local/share/applications",
            "/home/u/.local/share/applications"
        ]
    );
    assert_eq!(AppsSource::new(None, None, None).search_dirs.len(), 2);
    assert_eq!(s.name(), "applications");
}

#[test]
fn desktop_files_by_extension() {
    assert!(is_desktop_file("/a/b.desktop"));
    assert!(!is_desktop_file("/a/.desktop"));
    assert!(!is_desktop_file("/a/b.DESKTOP"));
}
