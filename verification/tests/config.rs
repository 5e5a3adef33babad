use lupa::config::{
    config_path, default_excludes, expand_tilde, known_key, state_dir, BuiltSource, Config,
    ConfigFile, IndexerSources, Keybindings, KeybindingsFile, Ranking, RankingFile,
};

type Cfg = Config<f32, toml::Value>;

fn default_config() -> Cfg {
    Config::new(
        "/home/u",
        "/home/u/.local/state/lupa".to_string(),
        Ranking { apps: 1.3, files: 1.2, mail: 1.0, attachments: 0.9 },
    )
}

fn strings(v: &toml::Value) -> Vec<String> {
    v.as_array()
        .unwrap()
        .iter()
        .map(|s| s.as_str().unwrap().to_string())
        .collect()
}

fn text(t: &toml::Value, key: &str) -> Option<String> {
    t.get(key).map(|v| v.as_str().unwrap().to_string())
}

fn float(t: &toml::Value, key: &str) -> Option<f32> {
    t.get(key).map(|v| v.as_float().unwrap() as f32)
}

fn from_toml_str(content: &str) -> Cfg {
    let table: toml::Table = content.parse().unwrap();
    let number = |key: &str| table.get(key).map(|v| v.as_integer().unwrap() as u64);
    let file = ConfigFile {
        roots: table.get("roots").map(strings),
        exclude: table.get("exclude").map(strings),
        exclude_regex: table.get("exclude_regex").map(strings),
        max_file_size_mb: number("max_file_size_mb"),
        extractor_timeout_secs: number("extractor_timeout_secs"),
        ranking: table.get("ranking").map(|r| RankingFile {
            apps: float(r, "apps"),
            files: float(r, "files"),
            mail: float(r, "mail"),
            attachments: float(r, "attachments"),
        }),
        keybindings: table.get("keybindings").map(|k| KeybindingsFile {
            close: text(k, "close"),
            primary_action: text(k, "primary_action"),
            secondary_action: text(k, "secondary_action"),
            copy: text(k, "copy"),
            quick_look: text(k, "quick_look"),
            history_up: text(k, "history_up"),
            next_result: text(k, "next_result"),
            previous_result: text(k, "previous_result"),
            next_category: text(k, "next_category"),
            previous_category: text(k, "previous_category"),
            filter_all: text(k, "filter_all"),
            filter_apps: text(k, "filter_apps"),
            filter_files: text(k, "filter_files"),
            filter_mail: text(k, "filter_mail"),
            filter_attachments: text(k, "filter_attachments"),
            global_toggle: text(k, "global_toggle"),
        }),
        sections: table.into_iter().collect(),
    };
    default_config().with_file(file, "/home/u")
}

#[test]
fn test_default_config() {
    let cfg = default_config();
    assert!(!cfg.roots.is_empty());
    assert!(cfg.max_file_size_mb > 0);
    assert!((cfg.ranking_apps - 1.3).abs() < 0.001);
    assert_eq!(cfg.keybindings.close, "Escape");
    assert_eq!(cfg.keybindings.global_toggle, "Super+space");
    assert!(cfg.exclude_regex.is_empty());
}

#[test]
fn test_expand_tilde() {
    let home = "/home/u";
    let expanded = expand_tilde("~/Documents", home);
    assert!(expanded.contains("Documents"));
    assert!(expanded.starts_with(home));
}

#[test]
fn test_toml_config() {
    let cfg = from_toml_str("max_file_size_mb = 100\nranking = { apps = 2.0 }\n");
    assert_eq!(cfg.max_file_size_mb, 100);
    assert_eq!(cfg.ranking_apps, 2.0);
    assert_eq!(cfg.ranking_files, 1.2);
}

#[test]
fn user_exclude_merges_with_defaults() {
    let toml = r#"
        exclude = ["MyProject/tmp", ".vscode"]
    "#;
    let cfg = from_toml_str(toml);
    assert!(
        cfg.exclude.iter().any(|s| s == ".cache"),
        "default must survive"
    );
    assert!(
        cfg.exclude.iter().any(|s| s == "node_modules"),
        "default must survive"
    );
    assert!(
        cfg.exclude.iter().any(|s| s == "MyProject/tmp"),
        "user entry must be added"
    );
    assert!(
        cfg.exclude.iter().any(|s| s == ".vscode"),
        "user entry must be added"
    );
}

#[test]
fn exclude_regex_compiled_from_toml() {
    let toml = r#"
        exclude_regex = ['\.~lock\..*#$', '\.pyc$']
    "#;
    let cfg = from_toml_str(toml);
    assert_eq!(cfg.exclude_regex.len(), 2);
    assert!(cfg
        .exclude_regex
        .iter()
        .any(|r| r.is_match("/home/u/Docs/.~lock.Report.xlsx#")));
    assert!(cfg.exclude_regex.iter().any(|r| r.is_match("/a/b/foo.pyc")));
}

#[test]
fn invalid_regex_patterns_dropped_not_fatal() {
    let toml = r#"
        exclude_regex = ['\.~lock\..*#$', '[unterminated', '\.tmp$']
    "#;
    let cfg = from_toml_str(toml);
    assert_eq!(
        cfg.exclude_regex.len(),
        2,
        "bad pattern dropped; good ones kept"
    );
}

#[test]
fn missing_exclude_sections_leave_defaults_intact() {
    let cfg = from_toml_str("max_file_size_mb = 25");
    let defaults = default_config().exclude;
    assert_eq!(cfg.exclude, defaults);
    assert!(cfg.exclude_regex.is_empty());
    assert_eq!(cfg.max_file_size_mb, 25);
}

#[test]
fn empty_config_has_no_plugin_sections() {
    let cfg = from_toml_str("");
    assert!(cfg.plugin_sections.is_empty());
}

#[test]
fn unknown_top_level_keys_captured_as_plugin_sections() {
    let cfg = from_toml_str(
        r#"
        max_file_size_mb = 25

        [thunderbird]
        enabled = true
        gloda_batch_size = 500

        [[maildir]]
        id = "personal"
        paths = ["~/Mail"]
    "#,
    );
    assert_eq!(cfg.plugin_sections.len(), 2);
    assert!(cfg.plugin_sections.contains_key("thunderbird"));
    assert!(cfg.plugin_sections.contains_key("maildir"));
}

#[test]
fn plugin_section_preserves_raw_toml_for_factory() {
    let cfg = from_toml_str(
        r#"
        [thunderbird]
        gloda_batch_size = 1000
        profile = "~/.thunderbird/work"
    "#,
    );
    let raw = cfg.plugin_sections.get("thunderbird").unwrap();
    let table = raw.as_table().expect("thunderbird is a table");
    assert_eq!(
        table.get("gloda_batch_size").and_then(|v| v.as_integer()),
        Some(1000)
    );
    assert_eq!(
        table.get("profile").and_then(|v| v.as_str()),
        Some("~/.thunderbird/work")
    );
}

#[test]
fn plugin_section_maildir_preserved_as_array() {
    let cfg = from_toml_str(
        r#"
        [[maildir]]
        id = "a"
        paths = ["/tmp/a"]

        [[maildir]]
        id = "b"
        paths = ["/tmp/b"]
    "#,
    );
    let raw = cfg.plugin_sections.get("maildir").unwrap();
    let arr = raw.as_array().expect("maildir is array-of-tables");
    assert_eq!(arr.len(), 2);
}

#[test]
fn known_keys_never_leak_into_plugin_sections() {
    let cfg = from_toml_str(
        r#"
        roots = ["/tmp/custom"]
        exclude = [".foo"]
        max_file_size_mb = 100

        [ranking]
        apps = 2.0

        [keybindings]
        close = "Escape"
    "#,
    );
    assert!(cfg.plugin_sections.is_empty());
    assert_eq!(cfg.max_file_size_mb, 100);
}

#[test]
fn values_without_a_file() {
    let cfg = default_config();
    assert_eq!(cfg.roots, vec!["/home/u"]);
    assert_eq!(
        default_excludes(),
        vec![
            ".cache",
            ".local/share/Trash",
            ".steam",
            ".var/app",
            "node_modules",
            "target",
            ".git",
            ".venv",
            "__pycache__",
            ".thunderbird",
            ".swp",
            ".swo",
            ".swx"
        ]
    );
    assert_eq!(cfg.exclude, default_excludes());
    assert_eq!(cfg.max_file_size_mb, 50);
    assert_eq!(cfg.extractor_timeout_secs, 15);
    assert_eq!(cfg.ranking_mail, 1.0);
    assert_eq!(cfg.ranking_attachments, 0.9);
    let k = Keybindings::default();
    assert_eq!(k.primary_action, "Return");
    assert_eq!(k.secondary_action, "<Shift>Return");
    assert_eq!(k.copy, "<Ctrl>c");
    assert_eq!(k.quick_look, "space");
    assert_eq!(k.history_up, "Up");
    assert_eq!(k.next_result, "Down");
    assert_eq!(k.previous_result, "Up");
    assert_eq!(k.next_category, "<Ctrl>Down");
    assert_eq!(k.previous_category, "<Ctrl>Up");
    assert_eq!(k.filter_all, "<Ctrl>1");
    assert_eq!(k.filter_apps, "<Ctrl>2");
    assert_eq!(k.filter_files, "<Ctrl>3");
    assert_eq!(k.filter_mail, "<Ctrl>4");
    assert_eq!(k.filter_attachments, "<Ctrl>5");
}

#[test]
fn a_file_changes_what_it_names() {
    let cfg = from_toml_str(
        r#"
        roots = ["~/Docs", "/srv", "~"]
        extractor_timeout_secs = 3
        [keybindings]
        copy = "<Alt>c"
        [ranking]
        mail = 4.5
    "#,
    );
    assert_eq!(cfg.roots, vec!["/home/u/Docs", "/srv", "/home/u"]);
    assert_eq!(cfg.extractor_timeout_secs, 3);
    assert_eq!(cfg.keybindings.copy, "<Alt>c");
    assert_eq!(cfg.keybindings.close, "Escape");
    assert_eq!(cfg.ranking_mail, 4.5);
    assert_eq!(cfg.ranking_apps, 1.3);
    assert_eq!(cfg.state_dir, "/home/u/.local/state/lupa");
}

#[test]
fn tildes() {
    assert_eq!(expand_tilde("~", "/h"), "/h");
    assert_eq!(expand_tilde("~/a/b", "/h"), "/h/a/b");
    assert_eq!(expand_tilde("~other/a", "/h"), "~other/a");
    assert_eq!(expand_tilde("/x", "/h"), "/x");
    assert_eq!(expand_tilde("~//x", "/h"), "/x");
}

#[test]
fn places_of_files() {
    assert_eq!(config_path(Some("/home/u/.config")), "/home/u/.config/lupa/config.toml");
    assert_eq!(config_path(None), "/tmp/lupa/config.toml");
    assert_eq!(state_dir(Some("/s"), "/h"), "/s/lupa");
    assert_eq!(state_dir(None, "/h"), "/h/.local/state/lupa");
}

#[test]
fn keys_of_the_file() {
    for k in [
        "roots",
        "exclude",
        "exclude_regex",
        "max_file_size_mb",
        "extractor_timeout_secs",
        "ranking",
        "keybindings",
    ] {
        assert!(known_key(k), "{k}");
    }
    assert!(!known_key("thunderbird"));
}

#[test]
fn sources_of_the_configuration() {
    let cfg = from_toml_str("max_file_size_mb = 7\nexclude_regex = ['x$']");
    let fs = cfg.build_fs_source();
    assert_eq!(fs.roots, vec!["/home/u"]);
    assert_eq!(fs.exclude, cfg.exclude);
    assert_eq!(fs.exclude_regex.len(), 1);
    assert!(fs.exclude_regex[0].is_match("ax"));
    assert_eq!(fs.max_file_size_mb, 7);
    assert_eq!(IndexerSources::max_file_size_mb(&cfg), 7);
    assert_eq!(IndexerSources::exclude(&cfg), &cfg.exclude);

    assert_eq!(cfg.build_sources(None).len(), 1);
    let built = cfg.build_sources(Some("/p".to_string()));
    assert_eq!(built.len(), 2);
    assert!(matches!(built[0], BuiltSource::Apps));
    match &built[1] {
        BuiltSource::Gloda(g) => {
            assert_eq!(g.profile_path, "/p");
            assert_eq!(g.last_key, 0);
        }
        _ => panic!("expected the messages"),
    }
}
