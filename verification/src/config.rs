//! The configuration: what is there from the start, and what a file changes.
use crate::exclude::PathPattern;
use crate::fs::FsSource;
use crate::gloda::GlodaSource;
use crate::paths::path_join;
use crate::text::{append_strings, clone_strings, same, strip_prefix};
use vstd::prelude::*;
use vstd::string::*;

verus! {

use crate::exclude::{excluded, regex_valid, sources};
use crate::paths::{components_of, path_joined};
use crate::text::{lemma_views_push, starts_with, views};

// --- Key bindings ---

/// The keys for the actions of the launcher.
#[derive(Debug)]
pub struct Keybindings {
    pub close: String,
    pub primary_action: String,
    pub secondary_action: String,
    pub copy: String,
    pub quick_look: String,
    pub history_up: String,
    pub next_result: String,
    pub previous_result: String,
    pub next_category: String,
    pub previous_category: String,
    pub filter_all: String,
    pub filter_apps: String,
    pub filter_files: String,
    pub filter_mail: String,
    pub filter_attachments: String,
    pub global_toggle: String,
}

/// What key bindings hold.
pub struct KeybindingsView {
    pub close: Seq<char>,
    pub primary_action: Seq<char>,
    pub secondary_action: Seq<char>,
    pub copy: Seq<char>,
    pub quick_look: Seq<char>,
    pub history_up: Seq<char>,
    pub next_result: Seq<char>,
    pub previous_result: Seq<char>,
    pub next_category: Seq<char>,
    pub previous_category: Seq<char>,
    pub filter_all: Seq<char>,
    pub filter_apps: Seq<char>,
    pub filter_files: Seq<char>,
    pub filter_mail: Seq<char>,
    pub filter_attachments: Seq<char>,
    pub global_toggle: Seq<char>,
}

impl View for Keybindings {
    type V = KeybindingsView;

    open spec fn view(&self) -> KeybindingsView {
        KeybindingsView {
            close: self.close@,
            primary_action: self.primary_action@,
            secondary_action: self.secondary_action@,
            copy: self.copy@,
            quick_look: self.quick_look@,
            history_up: self.history_up@,
            next_result: self.next_result@,
            previous_result: self.previous_result@,
            next_category: self.next_category@,
            previous_category: self.previous_category@,
            filter_all: self.filter_all@,
            filter_apps: self.filter_apps@,
            filter_files: self.filter_files@,
            filter_mail: self.filter_mail@,
            filter_attachments: self.filter_attachments@,
            global_toggle: self.global_toggle@,
        }
    }
}

impl Clone for Keybindings {
    fn clone(&self) -> (r: Self)
        ensures
            r == *self,
    {
        Keybindings {
            close: self.close.clone(),
            primary_action: self.primary_action.clone(),
            secondary_action: self.secondary_action.clone(),
            copy: self.copy.clone(),
            quick_look: self.quick_look.clone(),
            history_up: self.history_up.clone(),
            next_result: self.next_result.clone(),
            previous_result: self.previous_result.clone(),
            next_category: self.next_category.clone(),
            previous_category: self.previous_category.clone(),
            filter_all: self.filter_all.clone(),
            filter_apps: self.filter_apps.clone(),
            filter_files: self.filter_files.clone(),
            filter_mail: self.filter_mail.clone(),
            filter_attachments: self.filter_attachments.clone(),
            global_toggle: self.global_toggle.clone(),
        }
    }
}

/// The key bindings that a file gives.
pub struct KeybindingsFile {
    pub close: Option<String>,
    pub primary_action: Option<String>,
    pub secondary_action: Option<String>,
    pub copy: Option<String>,
    pub quick_look: Option<String>,
    pub history_up: Option<String>,
    pub next_result: Option<String>,
    pub previous_result: Option<String>,
    pub next_category: Option<String>,
    pub previous_category: Option<String>,
    pub filter_all: Option<String>,
    pub filter_apps: Option<String>,
    pub filter_files: Option<String>,
    pub filter_mail: Option<String>,
    pub filter_attachments: Option<String>,
    pub global_toggle: Option<String>,
}

/// The key bindings from the start.
pub open spec fn default_bindings() -> KeybindingsView {
    KeybindingsView {
        close: "Escape"@,
        primary_action: "Return"@,
        secondary_action: "<Shift>Return"@,
        copy: "<Ctrl>c"@,
        quick_look: "space"@,
        history_up: "Up"@,
        next_result: "Down"@,
        previous_result: "Up"@,
        next_category: "<Ctrl>Down"@,
        previous_category: "<Ctrl>Up"@,
        filter_all: "<Ctrl>1"@,
        filter_apps: "<Ctrl>2"@,
        filter_files: "<Ctrl>3"@,
        filter_mail: "<Ctrl>4"@,
        filter_attachments: "<Ctrl>5"@,
        global_toggle: "Super+space"@,
    }
}

impl Default for Keybindings {
    fn default() -> (r: Self)
        ensures
            r@ == default_bindings(),
    {
        Keybindings {
            close: "Escape".to_owned(),
            primary_action: "Return".to_owned(),
            secondary_action: "<Shift>Return".to_owned(),
            copy: "<Ctrl>c".to_owned(),
            quick_look: "space".to_owned(),
            history_up: "Up".to_owned(),
            next_result: "Down".to_owned(),
            previous_result: "Up".to_owned(),
            next_category: "<Ctrl>Down".to_owned(),
            previous_category: "<Ctrl>Up".to_owned(),
            filter_all: "<Ctrl>1".to_owned(),
            filter_apps: "<Ctrl>2".to_owned(),
            filter_files: "<Ctrl>3".to_owned(),
            filter_mail: "<Ctrl>4".to_owned(),
            filter_attachments: "<Ctrl>5".to_owned(),
            global_toggle: "Super+space".to_owned(),
        }
    }
}

/// From the start, no two filters share a key.
pub proof fn law_filter_keys_differ()
    ensures
        seq![
            default_bindings().filter_all,
            default_bindings().filter_apps,
            default_bindings().filter_files,
            default_bindings().filter_mail,
            default_bindings().filter_attachments,
        ].no_duplicates(),
{
    reveal_strlit("<Ctrl>1");
    reveal_strlit("<Ctrl>2");
    reveal_strlit("<Ctrl>3");
    reveal_strlit("<Ctrl>4");
    reveal_strlit("<Ctrl>5");
    assert("<Ctrl>1"@[6] == '1' && "<Ctrl>2"@[6] == '2' && "<Ctrl>3"@[6] == '3' && "<Ctrl>4"@[6]
        == '4' && "<Ctrl>5"@[6] == '5');
}

/// A text from a file, or the one from the start.
pub open spec fn or_text(o: Option<String>, d: Seq<char>) -> Seq<char> {
    match o {
        Some(s) => s@,
        None => d,
    }
}

/// A text from a file, or the one from the start.
fn text_or(o: Option<String>, d: String) -> (r: String)
    ensures
        r@ == or_text(o, d@),
{
    match o {
        Some(s) => s,
        None => d,
    }
}

/// The key bindings with those from a file in place of the ones from the start.
pub open spec fn bindings_with(base: KeybindingsView, f: KeybindingsFile) -> KeybindingsView {
    KeybindingsView {
        close: or_text(f.close, base.close),
        primary_action: or_text(f.primary_action, base.primary_action),
        secondary_action: or_text(f.secondary_action, base.secondary_action),
        copy: or_text(f.copy, base.copy),
        quick_look: or_text(f.quick_look, base.quick_look),
        history_up: or_text(f.history_up, base.history_up),
        next_result: or_text(f.next_result, base.next_result),
        previous_result: or_text(f.previous_result, base.previous_result),
        next_category: or_text(f.next_category, base.next_category),
        previous_category: or_text(f.previous_category, base.previous_category),
        filter_all: or_text(f.filter_all, base.filter_all),
        filter_apps: or_text(f.filter_apps, base.filter_apps),
        filter_files: or_text(f.filter_files, base.filter_files),
        filter_mail: or_text(f.filter_mail, base.filter_mail),
        filter_attachments: or_text(f.filter_attachments, base.filter_attachments),
        global_toggle: or_text(f.global_toggle, base.global_toggle),
    }
}

/// The key bindings with those from a file in place of the ones from the start.
fn merge_bindings(base: Keybindings, f: KeybindingsFile) -> (r: Keybindings)
    ensures
        r@ == bindings_with(base@, f),
{
    Keybindings {
        close: text_or(f.close, base.close),
        primary_action: text_or(f.primary_action, base.primary_action),
        secondary_action: text_or(f.secondary_action, base.secondary_action),
        copy: text_or(f.copy, base.copy),
        quick_look: text_or(f.quick_look, base.quick_look),
        history_up: text_or(f.history_up, base.history_up),
        next_result: text_or(f.next_result, base.next_result),
        previous_result: text_or(f.previous_result, base.previous_result),
        next_category: text_or(f.next_category, base.next_category),
        previous_category: text_or(f.previous_category, base.previous_category),
        filter_all: text_or(f.filter_all, base.filter_all),
        filter_apps: text_or(f.filter_apps, base.filter_apps),
        filter_files: text_or(f.filter_files, base.filter_files),
        filter_mail: text_or(f.filter_mail, base.filter_mail),
        filter_attachments: text_or(f.filter_attachments, base.filter_attachments),
        global_toggle: text_or(f.global_toggle, base.global_toggle),
    }
}

// --- Sections of plugins ---

/// The top-level keys of a file that are no settings of the program itself, each with the
/// value that it has in the file.
pub struct PluginSections<V> {
    pub entries: Vec<(String, V)>,
}

/// Whether a top-level key is a setting of the program itself.
pub open spec fn is_known_key(k: Seq<char>) -> bool {
    ||| k == "roots"@
    ||| k == "exclude"@
    ||| k == "exclude_regex"@
    ||| k == "max_file_size_mb"@
    ||| k == "extractor_timeout_secs"@
    ||| k == "ranking"@
    ||| k == "keybindings"@
}

/// Whether a top-level key is a setting of the program itself.
pub fn known_key(k: &str) -> (r: bool)
    ensures
        r == is_known_key(k@),
{
    same(k, "roots") || same(k, "exclude") || same(k, "exclude_regex") || same(
        k,
        "max_file_size_mb",
    ) || same(k, "extractor_timeout_secs") || same(k, "ranking") || same(k, "keybindings")
}

/// The entries whose keys are no settings of the program itself, in their order.
pub open spec fn plugin_entries<V>(s: Seq<(String, V)>) -> Seq<(String, V)>
    decreases s.len(),
{
    if s.len() == 0 {
        Seq::empty()
    } else if is_known_key(s.last().0@) {
        plugin_entries(s.drop_last())
    } else {
        plugin_entries(s.drop_last()).push(s.last())
    }
}

/// Keeps the entries whose keys are no settings of the program itself.
pub fn plugin_sections<V>(entries: Vec<(String, V)>) -> (r: PluginSections<V>)
    ensures
        r.entries@ == plugin_entries(entries@),
{
    let ghost all = entries@;
    let mut left = entries;
    let mut kept: Vec<(String, V)> = Vec::new();
    let ghost mut done: int = 0;
    assert(all.take(0) =~= Seq::<(String, V)>::empty());
    assert(left@ =~= all.skip(0));
    while left.len() > 0
        invariant
            0 <= done <= all.len(),
            left@ =~= all.skip(done),
            kept@ =~= plugin_entries(all.take(done)),
        decreases left.len(),
    {
        let e = left.remove(0);
        proof {
            assert(e == all[done]);
            assert(all.take(done + 1).drop_last() =~= all.take(done));
            assert(all.take(done + 1).last() == e);
            assert(left@ =~= all.skip(done + 1));
            done = done + 1;
        }
        if !known_key(e.0.as_str()) {
            kept.push(e);
        }
    }
    assert(all.take(done) =~= all);
    PluginSections { entries: kept }
}

/// The position of the first entry with a key, or the number of entries.
pub open spec fn section_index<V>(s: Seq<(String, V)>, k: Seq<char>, i: int) -> int
    decreases s.len() - i,
{
    if i < 0 || i >= s.len() {
        s.len() as int
    } else if s[i].0@ == k {
        i
    } else {
        section_index(s, k, i + 1)
    }
}

impl<V> PluginSections<V> {
    /// Where the section of a key is, or the number of sections.
    fn position(&self, k: &str) -> (r: usize)
        ensures
            r == section_index(self.entries@, k@, 0),
            r <= self.entries@.len(),
    {
        let mut i: usize = 0;
        while i < self.entries.len()
            invariant
                i <= self.entries@.len(),
                section_index(self.entries@, k@, 0) == section_index(self.entries@, k@, i as int),
            decreases self.entries.len() - i,
        {
            if same(self.entries[i].0.as_str(), k) {
                return i;
            }
            i = i + 1;
        }
        i
    }

    /// The value of the section of a key.
    pub fn get(&self, k: &str) -> (r: Option<&V>)
        ensures
            ({
                let i = section_index(self.entries@, k@, 0);
                if i < self.entries@.len() {
                    r matches Some(v) && *v == self.entries@[i].1
                } else {
                    r is None
                }
            }),
    {
        let i = self.position(k);
        if i < self.entries.len() {
            Some(&self.entries[i].1)
        } else {
            None
        }
    }

    /// Whether there is a section of the key.
    pub fn contains_key(&self, k: &str) -> (r: bool)
        ensures
            r == (section_index(self.entries@, k@, 0) < self.entries@.len()),
    {
        self.position(k) < self.entries.len()
    }

    /// The number of sections.
    pub fn len(&self) -> (r: usize)
        ensures
            r == self.entries@.len(),
    {
        self.entries.len()
    }

    /// Whether there are none.
    pub fn is_empty(&self) -> (r: bool)
        ensures
            r == (self.entries@.len() == 0),
    {
        self.entries.len() == 0
    }
}

// --- The configuration ---

/// What counts for the ranking of each category.
#[derive(Debug)]
pub struct Ranking<R> {
    pub apps: R,
    pub files: R,
    pub mail: R,
    pub attachments: R,
}

/// What a file says of the ranking.
#[derive(Debug)]
pub struct RankingFile<R> {
    pub apps: Option<R>,
    pub files: Option<R>,
    pub mail: Option<R>,
    pub attachments: Option<R>,
}

/// The configuration. Ranking weights are of type `R`, values of plugin sections of type `V`.
pub struct Config<R, V> {
    pub roots: Vec<String>,
    pub exclude: Vec<String>,
    pub exclude_regex: Vec<PathPattern>,
    pub max_file_size_mb: u64,
    pub extractor_timeout_secs: u64,
    pub ranking_apps: R,
    pub ranking_files: R,
    pub ranking_mail: R,
    pub ranking_attachments: R,
    pub keybindings: Keybindings,
    pub state_dir: String,
    pub plugin_sections: PluginSections<V>,
}

/// What a file says. `sections` holds every top-level key with its value.
pub struct ConfigFile<R, V> {
    pub roots: Option<Vec<String>>,
    pub exclude: Option<Vec<String>>,
    pub exclude_regex: Option<Vec<String>>,
    pub max_file_size_mb: Option<u64>,
    pub extractor_timeout_secs: Option<u64>,
    pub ranking: Option<RankingFile<R>>,
    pub keybindings: Option<KeybindingsFile>,
    pub sections: Vec<(String, V)>,
}

/// The substrings of paths that are left out from the start.
pub open spec fn default_exclude_list() -> Seq<Seq<char>> {
    seq![
        ".cache"@, ".local/share/Trash"@, ".steam"@, ".var/app"@, "node_modules"@, "target"@,
        ".git"@, ".venv"@, "__pycache__"@, ".thunderbird"@, ".swp"@, ".swo"@, ".swx"@,
    ]
}

/// The substrings of paths that are left out from the start.
pub fn default_excludes() -> (r: Vec<String>)
    ensures
        views(r@) == default_exclude_list(),
{
    let mut v: Vec<String> = Vec::new();
    v.push(".cache".to_owned());
    v.push(".local/share/Trash".to_owned());
    v.push(".steam".to_owned());
    v.push(".var/app".to_owned());
    v.push("node_modules".to_owned());
    v.push("target".to_owned());
    v.push(".git".to_owned());
    v.push(".venv".to_owned());
    v.push("__pycache__".to_owned());
    v.push(".thunderbird".to_owned());
    v.push(".swp".to_owned());
    v.push(".swo".to_owned());
    v.push(".swx".to_owned());
    assert(views(v@) =~= default_exclude_list());
    v
}

/// A path with a leading tilde as the path below the home directory.
pub open spec fn tilde_expanded(path: Seq<char>, home: Seq<char>) -> Seq<char> {
    if starts_with(path, "~/"@) {
        path_joined(home, path.skip("~/"@.len() as int))
    } else if path == "~"@ {
        home
    } else {
        path
    }
}

/// A path with a leading tilde as the path below the home directory.
pub fn expand_tilde(path: &str, home: &str) -> (r: String)
    ensures
        r@ == tilde_expanded(path@, home@),
{
    match strip_prefix(path, "~/") {
        Some(rest) => path_join(home, rest.as_str()),
        None => {
            if same(path, "~") {
                home.to_owned()
            } else {
                path.to_owned()
            }
        },
    }
}

/// The paths with leading tildes expanded.
pub open spec fn roots_of(paths: Seq<Seq<char>>, home: Seq<char>) -> Seq<Seq<char>> {
    Seq::new(paths.len(), |i: int| tilde_expanded(paths[i], home))
}

/// The expressions that are valid, in their order.
pub open spec fn valid_patterns(p: Seq<Seq<char>>) -> Seq<Seq<char>>
    decreases p.len(),
{
    if p.len() == 0 {
        Seq::empty()
    } else if regex_valid(p.last()) {
        valid_patterns(p.drop_last()).push(p.last())
    } else {
        valid_patterns(p.drop_last())
    }
}

/// Compiles the expressions that are valid and adds them to a list; the others are dropped.
fn add_patterns(list: &mut Vec<PathPattern>, patterns: &Vec<String>)
    ensures
        sources(final(list)@) == sources(old(list)@) + valid_patterns(views(patterns@)),
{
    let ghost all = views(patterns@);
    let mut i: usize = 0;
    assert(all.take(0) =~= Seq::<Seq<char>>::empty());
    while i < patterns.len()
        invariant
            i <= patterns@.len(),
            all == views(patterns@),
            sources(list@) =~= sources(old(list)@) + valid_patterns(all.take(i as int)),
        decreases patterns.len() - i,
    {
        proof {
            assert(all.take(i + 1).drop_last() =~= all.take(i as int));
            assert(all.take(i + 1).last() == patterns@[i as int]@);
        }
        match PathPattern::new(patterns[i].as_str()) {
            Some(p) => {
                let ghost before = list@;
                list.push(p);
                assert(sources(list@) =~= sources(before).push(p.source()));
            },
            None => {},
        }
        i = i + 1;
    }
    assert(all.take(i as int) =~= all);
}

/// The path of the configuration file.
pub open spec fn config_file_in(config_dir: Option<Seq<char>>) -> Seq<char> {
    path_joined(
        (match config_dir {
            Some(d) => d,
            None => "/tmp"@,
        }),
        "lupa/config.toml"@,
    )
}

/// The path of the configuration file, below the directory for configurations.
pub fn config_path(config_dir: Option<&str>) -> (r: String)
    ensures
        r@ == config_file_in(
            (match config_dir {
                Some(d) => Some(d@),
                None => None,
            }),
        ),
{
    match config_dir {
        Some(d) => path_join(d, "lupa/config.toml"),
        None => path_join("/tmp", "lupa/config.toml"),
    }
}

/// The directory that the state is kept in.
pub open spec fn state_dir_in(state: Option<Seq<char>>, home: Seq<char>) -> Seq<char> {
    path_joined(
        (match state {
            Some(d) => d,
            None => path_joined(home, ".local/state"@),
        }),
        "lupa"@,
    )
}

/// The directory for the state of the program.
pub fn state_dir(state: Option<&str>, home: &str) -> (r: String)
    ensures
        r@ == state_dir_in(
            (match state {
                Some(d) => Some(d@),
                None => None,
            }),
            home@,
        ),
{
    match state {
        Some(d) => path_join(d, "lupa"),
        None => path_join(path_join(home, ".local/state").as_str(), "lupa"),
    }
}

/// A source that is there without a plugin.
pub enum BuiltSource {
    Apps,
    Gloda(GlodaSource),
}

/// Where the indexer has its settings from.
pub trait IndexerSources {
    /// The source of files.
    fn build_fs_source(&self) -> (r: FsSource);

    /// The substrings of paths to leave out.
    fn exclude(&self) -> (r: &Vec<String>);

    /// The largest size, in mebibytes, of a file whose content is read.
    fn max_file_size_mb(&self) -> (r: u64);
}

/// A weight from a file, or the one from before.
pub open spec fn or_weight<R>(o: Option<R>, d: R) -> R {
    match o {
        Some(v) => v,
        None => d,
    }
}

/// What a configuration becomes when a file is read into it.
pub open spec fn merged<R, V>(
    before: Config<R, V>,
    file: ConfigFile<R, V>,
    home: Seq<char>,
    after: Config<R, V>,
) -> bool {
    &&& views(after.roots@) == (match file.roots {
        Some(v) => roots_of(views(v@), home),
        None => views(before.roots@),
    })
    &&& views(after.exclude@) == (match file.exclude {
        Some(v) => views(before.exclude@) + views(v@),
        None => views(before.exclude@),
    })
    &&& sources(after.exclude_regex@) == (match file.exclude_regex {
        Some(v) => sources(before.exclude_regex@) + valid_patterns(views(v@)),
        None => sources(before.exclude_regex@),
    })
    &&& after.max_file_size_mb == or_weight(file.max_file_size_mb, before.max_file_size_mb)
    &&& after.extractor_timeout_secs == or_weight(
        file.extractor_timeout_secs,
        before.extractor_timeout_secs,
    )
    &&& after.ranking_apps == (match file.ranking {
        Some(k) => or_weight(k.apps, before.ranking_apps),
        None => before.ranking_apps,
    })
    &&& after.ranking_files == (match file.ranking {
        Some(k) => or_weight(k.files, before.ranking_files),
        None => before.ranking_files,
    })
    &&& after.ranking_mail == (match file.ranking {
        Some(k) => or_weight(k.mail, before.ranking_mail),
        None => before.ranking_mail,
    })
    &&& after.ranking_attachments == (match file.ranking {
        Some(k) => or_weight(k.attachments, before.ranking_attachments),
        None => before.ranking_attachments,
    })
    &&& after.keybindings@ == (match file.keybindings {
        Some(b) => bindings_with(before.keybindings@, b),
        None => before.keybindings@,
    })
    &&& after.state_dir == before.state_dir
    &&& after.plugin_sections.entries@ == plugin_entries(file.sections@)
}

impl<R: Copy, V> Config<R, V> {
    /// The configuration without a file.
    pub fn new(home: &str, state_dir: String, ranking: Ranking<R>) -> (r: Self)
        ensures
            views(r.roots@) == seq![home@],
            views(r.exclude@) == default_exclude_list(),
            r.exclude_regex@.len() == 0,
            r.max_file_size_mb == 50,
            r.extractor_timeout_secs == 15,
            r.ranking_apps == ranking.apps,
            r.ranking_files == ranking.files,
            r.ranking_mail == ranking.mail,
            r.ranking_attachments == ranking.attachments,
            r.keybindings@ == default_bindings(),
            r.state_dir == state_dir,
            r.plugin_sections.entries@.len() == 0,
    {
        let mut roots: Vec<String> = Vec::new();
        roots.push(home.to_owned());
        assert(views(roots@) =~= seq![home@]);
        Config {
            roots,
            exclude: default_excludes(),
            exclude_regex: Vec::new(),
            max_file_size_mb: 50,
            extractor_timeout_secs: 15,
            ranking_apps: ranking.apps,
            ranking_files: ranking.files,
            ranking_mail: ranking.mail,
            ranking_attachments: ranking.attachments,
            keybindings: Keybindings::default(),
            state_dir,
            plugin_sections: PluginSections { entries: Vec::new() },
        }
    }

    /// The configuration with what a file says: roots, limits, weights and keys in place of
    /// those from before, exclusions beside them, and the sections of plugins.
    pub fn with_file(self, file: ConfigFile<R, V>, home: &str) -> (r: Self)
        ensures
            merged(self, file, home@, r),
    {
        let mut cfg = self;
        match file.roots {
            Some(paths) => {
                let mut roots: Vec<String> = Vec::new();
                let ghost all = views(paths@);
                for i in 0..paths.len()
                    invariant
                        all == views(paths@),
                        views(roots@) =~= roots_of(all, home@).take(i as int),
                {
                    let ghost before = roots@;
                    roots.push(expand_tilde(paths[i].as_str(), home));
                    proof {
                        lemma_views_push(before, roots@.last());
                        assert(all[i as int] == paths@[i as int]@);
                    }
                }
                assert(views(roots@) =~= roots_of(all, home@));
                cfg.roots = roots;
            },
            None => {},
        }
        match file.exclude {
            Some(extra) => {
                append_strings(&mut cfg.exclude, extra);
            },
            None => {},
        }
        match file.exclude_regex {
            Some(patterns) => {
                add_patterns(&mut cfg.exclude_regex, &patterns);
            },
            None => {},
        }
        match file.max_file_size_mb {
            Some(v) => {
                cfg.max_file_size_mb = v;
            },
            None => {},
        }
        match file.extractor_timeout_secs {
            Some(v) => {
                cfg.extractor_timeout_secs = v;
            },
            None => {},
        }
        match file.ranking {
            Some(k) => {
                match k.apps {
                    Some(v) => {
                        cfg.ranking_apps = v;
                    },
                    None => {},
                }
                match k.files {
                    Some(v) => {
                        cfg.ranking_files = v;
                    },
                    None => {},
                }
                match k.mail {
                    Some(v) => {
                        cfg.ranking_mail = v;
                    },
                    None => {},
                }
                match k.attachments {
                    Some(v) => {
                        cfg.ranking_attachments = v;
                    },
                    None => {},
                }
            },
            None => {},
        }
        match file.keybindings {
            Some(b) => {
                let merged = merge_bindings(cfg.keybindings.clone(), b);
                cfg.keybindings = merged;
            },
            None => {},
        }
        cfg.plugin_sections = plugin_sections(file.sections);
        cfg
    }

    /// The sources that are there without a plugin: the applications, and the messages of
    /// the Thunderbird profile, where there is one.
    pub fn build_sources(&self, profile: Option<String>) -> (r: Vec<BuiltSource>)
        ensures
            r@.len() == (if profile is Some {
                2int
            } else {
                1int
            }),
            r@[0] is Apps,
            profile matches Some(p) ==> (r@[1] matches BuiltSource::Gloda(g) && g.profile_path == p
                && g.last_key == 0),
    {
        let mut v: Vec<BuiltSource> = Vec::new();
        v.push(BuiltSource::Apps);
        match profile {
            Some(p) => {
                v.push(BuiltSource::Gloda(GlodaSource::new(p, 0)));
            },
            None => {},
        }
        v
    }
}

impl<R: Copy, V> IndexerSources for Config<R, V> {
    fn build_fs_source(&self) -> (r: FsSource)
        ensures
            views(r.roots@) == views(self.roots@),
            views(r.exclude@) == views(self.exclude@),
            sources(r.exclude_regex@) == sources(self.exclude_regex@),
            r.max_file_size_mb == self.max_file_size_mb,
    {
        let mut patterns: Vec<PathPattern> = Vec::new();
        for i in 0..self.exclude_regex.len()
            invariant
                sources(patterns@) =~= sources(self.exclude_regex@).take(i as int),
        {
            let ghost before = patterns@;
            let p = self.exclude_regex[i].clone();
            patterns.push(p);
            assert(sources(patterns@) =~= sources(before).push(p.source()));
        }
        assert(sources(patterns@) =~= sources(self.exclude_regex@));
        FsSource::with_regex(
            clone_strings(&self.roots),
            clone_strings(&self.exclude),
            patterns,
            self.max_file_size_mb,
        )
    }

    fn exclude(&self) -> (r: &Vec<String>)
        ensures
            *r == self.exclude,
    {
        &self.exclude
    }

    fn max_file_size_mb(&self) -> (r: u64)
        ensures
            r == self.max_file_size_mb,
    {
        self.max_file_size_mb
    }
}

/// What is left out from the start stays left out whatever a file adds.
pub proof fn law_default_excludes_survive(
    path: Seq<char>,
    user: Seq<Seq<char>>,
    patterns: Seq<Seq<char>>,
)
    requires
        excluded(path, default_exclude_list(), Seq::empty()),
    ensures
        excluded(path, default_exclude_list() + user, patterns),
{
    crate::exclude::law_excluded_monotone(path, default_exclude_list(), Seq::empty(), user, patterns);
    assert(Seq::<Seq<char>>::empty() + patterns =~= patterns);
}

/// No setting of the program itself is kept as a section of a plugin, and every other key is.
pub proof fn law_plugin_entries<V>(s: Seq<(String, V)>)
    ensures
        forall|i: int|
            0 <= i < plugin_entries(s).len() ==> !is_known_key(
                (#[trigger] plugin_entries(s)[i]).0@,
            ) && s.contains(plugin_entries(s)[i]),
        forall|i: int|
            0 <= i < s.len() && !is_known_key((#[trigger] s[i]).0@) ==> plugin_entries(s).contains(
                s[i],
            ),
    decreases s.len(),
{
    if s.len() > 0 {
        let t = s.drop_last();
        law_plugin_entries(t);
        let p = plugin_entries(s);
        let q = plugin_entries(t);
        assert forall|i: int| 0 <= i < p.len() implies !is_known_key((#[trigger] p[i]).0@)
            && s.contains(p[i]) by {
            if i < q.len() {
                assert(p[i] == q[i]);
                let k = choose|k: int| 0 <= k < t.len() && t[k] == q[i];
                assert(s[k] == p[i]);
            } else {
                assert(s[s.len() - 1] == p[i]);
            }
        }
        assert forall|i: int| 0 <= i < s.len() && !is_known_key((#[trigger] s[i]).0@) implies p.contains(
            s[i],
        ) by {
            if i < t.len() {
                assert(t[i] == s[i]);
                assert(q.contains(t[i]));
                let k = choose|k: int| 0 <= k < q.len() && q[k] == t[i];
                assert(p[k] == s[i]);
            } else {
                assert(p[q.len() as int] == s[i]);
            }
        }
    }
}

/// Only valid expressions are kept, and every valid one is.
pub proof fn law_valid_patterns(p: Seq<Seq<char>>)
    ensures
        forall|i: int|
            0 <= i < valid_patterns(p).len() ==> regex_valid(#[trigger] valid_patterns(p)[i]),
        forall|i: int|
            0 <= i < p.len() && regex_valid(#[trigger] p[i]) ==> valid_patterns(p).contains(p[i]),
    decreases p.len(),
{
    if p.len() > 0 {
        let t = p.drop_last();
        law_valid_patterns(t);
        let v = valid_patterns(p);
        let w = valid_patterns(t);
        assert forall|i: int| 0 <= i < v.len() implies regex_valid(#[trigger] v[i]) by {
            if i < w.len() {
                assert(v[i] == w[i]);
            }
        }
        assert forall|i: int| 0 <= i < p.len() && regex_valid(#[trigger] p[i]) implies v.contains(
            p[i],
        ) by {
            if i < t.len() {
                assert(t[i] == p[i]);
                let k = choose|k: int| 0 <= k < w.len() && w[k] == t[i];
                assert(v[k] == p[i]);
            } else {
                assert(v[w.len() as int] == p[i]);
            }
        }
    }
}

/// A key that the file binds is bound to what the file says, and every other key stays as it
/// was: no binding depends on another.
pub proof fn law_bindings(base: KeybindingsView, f: KeybindingsFile)
    ensures
        ({
            let b = bindings_with(base, f);
            &&& f.close matches Some(s) ==> b.close == s@
            &&& f.primary_action matches Some(s) ==> b.primary_action == s@
            &&& f.secondary_action matches Some(s) ==> b.secondary_action == s@
            &&& f.copy matches Some(s) ==> b.copy == s@
            &&& f.quick_look matches Some(s) ==> b.quick_look == s@
            &&& f.history_up matches Some(s) ==> b.history_up == s@
            &&& f.next_result matches Some(s) ==> b.next_result == s@
            &&& f.previous_result matches Some(s) ==> b.previous_result == s@
            &&& f.next_category matches Some(s) ==> b.next_category == s@
            &&& f.previous_category matches Some(s) ==> b.previous_category == s@
            &&& f.filter_all matches Some(s) ==> b.filter_all == s@
            &&& f.filter_apps matches Some(s) ==> b.filter_apps == s@
            &&& f.filter_files matches Some(s) ==> b.filter_files == s@
            &&& f.filter_mail matches Some(s) ==> b.filter_mail == s@
            &&& f.filter_attachments matches Some(s) ==> b.filter_attachments == s@
            &&& f.global_toggle matches Some(s) ==> b.global_toggle == s@
            &&& f.close is None ==> b.close == base.close
            &&& f.primary_action is None ==> b.primary_action == base.primary_action
            &&& f.secondary_action is None ==> b.secondary_action == base.secondary_action
            &&& f.copy is None ==> b.copy == base.copy
            &&& f.quick_look is None ==> b.quick_look == base.quick_look
            &&& f.history_up is None ==> b.history_up == base.history_up
            &&& f.next_result is None ==> b.next_result == base.next_result
            &&& f.previous_result is None ==> b.previous_result == base.previous_result
            &&& f.next_category is None ==> b.next_category == base.next_category
            &&& f.previous_category is None ==> b.previous_category == base.previous_category
            &&& f.filter_all is None ==> b.filter_all == base.filter_all
            &&& f.filter_apps is None ==> b.filter_apps == base.filter_apps
            &&& f.filter_files is None ==> b.filter_files == base.filter_files
            &&& f.filter_mail is None ==> b.filter_mail == base.filter_mail
            &&& f.filter_attachments is None ==> b.filter_attachments == base.filter_attachments
            &&& f.global_toggle is None ==> b.global_toggle == base.global_toggle
            &&& bindings_with(b, f) == b
        }),
{
}

/// By default the second way of opening a hit is the first with shift, the keys that move by
/// categories are those that move by rows with control, and the filters are control with a digit.
pub proof fn law_default_keys()
    ensures
        ({
            let b = default_bindings();
            &&& b.secondary_action == "<Shift>"@ + b.primary_action
            &&& b.next_category == "<Ctrl>"@ + b.next_result
            &&& b.previous_category == "<Ctrl>"@ + b.previous_result
            &&& b.history_up == b.previous_result
            &&& b.next_result != b.previous_result
            &&& b.filter_all == "<Ctrl>"@ + seq!['1']
            &&& b.filter_apps == "<Ctrl>"@ + seq!['2']
            &&& b.filter_files == "<Ctrl>"@ + seq!['3']
            &&& b.filter_mail == "<Ctrl>"@ + seq!['4']
            &&& b.filter_attachments == "<Ctrl>"@ + seq!['5']
        }),
{
    reveal_strlit("<Shift>");
    reveal_strlit("<Ctrl>");
    reveal_strlit("Return");
    reveal_strlit("<Shift>Return");
    reveal_strlit("Up");
    reveal_strlit("Down");
    reveal_strlit("<Ctrl>Down");
    reveal_strlit("<Ctrl>Up");
    reveal_strlit("<Ctrl>1");
    reveal_strlit("<Ctrl>2");
    reveal_strlit("<Ctrl>3");
    reveal_strlit("<Ctrl>4");
    reveal_strlit("<Ctrl>5");
    assert("<Shift>Return"@ =~= "<Shift>"@ + "Return"@);
    assert("<Ctrl>Down"@ =~= "<Ctrl>"@ + "Down"@);
    assert("<Ctrl>Up"@ =~= "<Ctrl>"@ + "Up"@);
    assert("<Ctrl>1"@ =~= "<Ctrl>"@ + seq!['1']);
    assert("<Ctrl>2"@ =~= "<Ctrl>"@ + seq!['2']);
    assert("<Ctrl>3"@ =~= "<Ctrl>"@ + seq!['3']);
    assert("<Ctrl>4"@ =~= "<Ctrl>"@ + seq!['4']);
    assert("<Ctrl>5"@ =~= "<Ctrl>"@ + seq!['5']);
    assert("Up"@.len() == 2 && "Down"@.len() == 4);
}

/// A tilde at the beginning of a path, alone or before a separator, stands for the home
/// directory; anywhere else it stands for itself.
pub proof fn law_tilde(rest: Seq<char>, path: Seq<char>, home: Seq<char>)
    ensures
        tilde_expanded("~/"@ + rest, home) == path_joined(home, rest),
        tilde_expanded("~"@, home) == home,
        path.len() == 0 || path[0] != '~' ==> tilde_expanded(path, home) == path,
        path.len() > 1 && path[1] != '/' ==> tilde_expanded(path, home) == path,
{
    reveal_strlit("~/");
    reveal_strlit("~");
    let t = "~/"@;
    assert((t + rest).take(2) =~= t);
    assert((t + rest).skip(2) =~= rest);
    assert(t[0] == '~' && t[1] == '/');
    if path.len() > 1 {
        assert(path.take(2)[0] == path[0]);
        assert(path.take(2)[1] == path[1]);
    }
}

/// A setting that the file gives takes the place of the one before, and one that it does not
/// give stays: an empty file changes nothing. The roots are the file's, each with its tilde
/// expanded and in their order.
pub proof fn law_settings<R, V>(
    before: Config<R, V>,
    file: ConfigFile<R, V>,
    home: Seq<char>,
    after: Config<R, V>,
)
    requires
        merged(before, file, home, after),
    ensures
        file.roots is None ==> views(after.roots@) == views(before.roots@),
        file.roots matches Some(v) ==> after.roots@.len() == v@.len() && forall|i: int|
            0 <= i < v@.len() ==> #[trigger] views(after.roots@)[i] == tilde_expanded(
                v@[i]@,
                home,
            ),
        file.max_file_size_mb matches Some(n) ==> after.max_file_size_mb == n,
        file.max_file_size_mb is None ==> after.max_file_size_mb == before.max_file_size_mb,
        file.extractor_timeout_secs matches Some(n) ==> after.extractor_timeout_secs == n,
        file.extractor_timeout_secs is None ==> after.extractor_timeout_secs
            == before.extractor_timeout_secs,
        file.ranking is None ==> after.ranking_apps == before.ranking_apps && after.ranking_files
            == before.ranking_files && after.ranking_mail == before.ranking_mail
            && after.ranking_attachments == before.ranking_attachments,
        file.ranking matches Some(k) ==> {
            &&& k.apps matches Some(w) ==> after.ranking_apps == w
            &&& k.files matches Some(w) ==> after.ranking_files == w
            &&& k.mail matches Some(w) ==> after.ranking_mail == w
            &&& k.attachments matches Some(w) ==> after.ranking_attachments == w
            &&& k.apps is None ==> after.ranking_apps == before.ranking_apps
            &&& k.files is None ==> after.ranking_files == before.ranking_files
            &&& k.mail is None ==> after.ranking_mail == before.ranking_mail
            &&& k.attachments is None ==> after.ranking_attachments == before.ranking_attachments
        },
        file.keybindings is None ==> after.keybindings@ == before.keybindings@,
        file.keybindings matches Some(b) ==> after.keybindings@ == bindings_with(
            before.keybindings@,
            b,
        ),
        after.state_dir == before.state_dir,
{
    if file.roots is Some {
        let v = file.roots->0;
        assert(views(after.roots@).len() == after.roots@.len());
        assert forall|i: int| 0 <= i < v@.len() implies #[trigger] views(after.roots@)[i]
            == tilde_expanded(v@[i]@, home) by {
            assert(views(v@)[i] == v@[i]@);
        }
    }
}

/// A file only ever excludes more: what was excluded before still is, and so is every path that
/// holds one of its texts or that one of its valid patterns matches.
pub proof fn law_files_exclude_more<R, V>(
    before: Config<R, V>,
    file: ConfigFile<R, V>,
    home: Seq<char>,
    after: Config<R, V>,
    path: Seq<char>,
    a: Seq<char>,
    b: Seq<char>,
    i: int,
)
    requires
        merged(before, file, home, after),
    ensures
        excluded(path, views(before.exclude@), sources(before.exclude_regex@)) ==> excluded(
            path,
            views(after.exclude@),
            sources(after.exclude_regex@),
        ),
        file.exclude matches Some(v) ==> (0 <= i < v@.len() ==> excluded(
            a + v@[i]@ + b,
            views(after.exclude@),
            sources(after.exclude_regex@),
        )),
        file.exclude_regex matches Some(v) ==> (0 <= i < v@.len() && regex_valid(v@[i]@)
            && crate::exclude::regex_matches(v@[i]@, path) ==> excluded(
            path,
            views(after.exclude@),
            sources(after.exclude_regex@),
        )),
{
    let subs = views(before.exclude@);
    let pats = sources(before.exclude_regex@);
    let more = match file.exclude {
        Some(v) => views(v@),
        None => Seq::empty(),
    };
    let more_pats = match file.exclude_regex {
        Some(v) => valid_patterns(views(v@)),
        None => Seq::empty(),
    };
    assert(views(after.exclude@) =~= subs + more);
    assert(sources(after.exclude_regex@) =~= pats + more_pats);
    if excluded(path, subs, pats) {
        crate::exclude::law_excluded_monotone(path, subs, pats, more, more_pats);
    }
    if file.exclude is Some && 0 <= i < file.exclude->0@.len() {
        let v = file.exclude->0;
        assert((subs + more)[subs.len() + i] == v@[i]@);
        crate::exclude::law_excluded(a, b, path, subs + more, pats + more_pats, subs.len() + i);
    }
    if file.exclude_regex is Some && 0 <= i < file.exclude_regex->0@.len() {
        let v = file.exclude_regex->0;
        let p = v@[i]@;
        if regex_valid(p) && crate::exclude::regex_matches(p, path) {
            law_valid_patterns(views(v@));
            assert(views(v@)[i] == p);
            assert(more_pats.contains(p));
            let k = choose|k: int| 0 <= k < more_pats.len() && more_pats[k] == p;
            assert((pats + more_pats)[pats.len() + k] == p);
            crate::exclude::law_excluded(a, b, path, subs + more, pats + more_pats, pats.len() + k);
        }
    }
}

/// Caches, trash, version control, build outputs, editors' swap files and mail stores are left
/// out by default, wherever in a path they stand.
pub proof fn law_default_excludes(a: Seq<char>, b: Seq<char>, patterns: Seq<Seq<char>>)
    ensures
        excluded(a + ".cache"@ + b, default_exclude_list(), patterns),
        excluded(a + ".local/share/Trash"@ + b, default_exclude_list(), patterns),
        excluded(a + ".steam"@ + b, default_exclude_list(), patterns),
        excluded(a + ".var/app"@ + b, default_exclude_list(), patterns),
        excluded(a + "node_modules"@ + b, default_exclude_list(), patterns),
        excluded(a + "target"@ + b, default_exclude_list(), patterns),
        excluded(a + ".git"@ + b, default_exclude_list(), patterns),
        excluded(a + ".venv"@ + b, default_exclude_list(), patterns),
        excluded(a + "__pycache__"@ + b, default_exclude_list(), patterns),
        excluded(a + ".thunderbird"@ + b, default_exclude_list(), patterns),
        excluded(a + ".swp"@ + b, default_exclude_list(), patterns),
        excluded(a + ".swo"@ + b, default_exclude_list(), patterns),
        excluded(a + ".swx"@ + b, default_exclude_list(), patterns),
{
    let l = default_exclude_list();
    assert(l[0] == ".cache"@);
    assert(l[1] == ".local/share/Trash"@);
    assert(l[2] == ".steam"@);
    assert(l[3] == ".var/app"@);
    assert(l[4] == "node_modules"@);
    assert(l[5] == "target"@);
    assert(l[6] == ".git"@);
    assert(l[7] == ".venv"@);
    assert(l[8] == "__pycache__"@);
    assert(l[9] == ".thunderbird"@);
    assert(l[10] == ".swp"@);
    assert(l[11] == ".swo"@);
    assert(l[12] == ".swx"@);
    crate::exclude::law_excluded(a, b, a, l, patterns, 0);
    crate::exclude::law_excluded(a, b, a, l, patterns, 1);
    crate::exclude::law_excluded(a, b, a, l, patterns, 2);
    crate::exclude::law_excluded(a, b, a, l, patterns, 3);
    crate::exclude::law_excluded(a, b, a, l, patterns, 4);
    crate::exclude::law_excluded(a, b, a, l, patterns, 5);
    crate::exclude::law_excluded(a, b, a, l, patterns, 6);
    crate::exclude::law_excluded(a, b, a, l, patterns, 7);
    crate::exclude::law_excluded(a, b, a, l, patterns, 8);
    crate::exclude::law_excluded(a, b, a, l, patterns, 9);
    crate::exclude::law_excluded(a, b, a, l, patterns, 10);
    crate::exclude::law_excluded(a, b, a, l, patterns, 11);
    crate::exclude::law_excluded(a, b, a, l, patterns, 12);
}

/// The sections of plug-ins are kept in the order of the file, and none of the library's own
/// settings is taken for one; invalid patterns are left out one by one.
pub proof fn law_sections_in_order<V>(
    a: Seq<(String, V)>,
    b: Seq<(String, V)>,
    p: Seq<Seq<char>>,
    q: Seq<Seq<char>>,
)
    ensures
        plugin_entries(a + b) == plugin_entries(a) + plugin_entries(b),
        valid_patterns(p + q) == valid_patterns(p) + valid_patterns(q),
    decreases b.len() + q.len(),
{
    if b.len() > 0 {
        law_sections_in_order(a, b.drop_last(), p, q);
        assert((a + b).drop_last() =~= a + b.drop_last());
        assert((a + b).last() == b.last());
    } else {
        assert(a + b =~= a);
    }
    assert(plugin_entries(a + b) =~= plugin_entries(a) + plugin_entries(b));
    if q.len() > 0 {
        law_sections_in_order(a, b, p, q.drop_last());
        assert((p + q).drop_last() =~= p + q.drop_last());
        assert((p + q).last() == q.last());
    } else {
        assert(p + q =~= p);
    }
    assert(valid_patterns(p + q) =~= valid_patterns(p) + valid_patterns(q));
}

/// A section is found by its name: the first of that name, and none where there is none.
pub proof fn law_section_lookup<V>(s: Seq<(String, V)>, k: Seq<char>)
    ensures
        0 <= section_index(s, k, 0) <= s.len(),
        section_index(s, k, 0) < s.len() ==> s[section_index(s, k, 0)].0@ == k,
        forall|i: int| 0 <= i < section_index(s, k, 0) ==> (#[trigger] s[i]).0@ != k,
{
    lemma_section_index(s, k, 0);
}

proof fn lemma_section_index<V>(s: Seq<(String, V)>, k: Seq<char>, i: int)
    requires
        0 <= i <= s.len(),
    ensures
        i <= section_index(s, k, i) <= s.len(),
        section_index(s, k, i) < s.len() ==> s[section_index(s, k, i)].0@ == k,
        forall|j: int| i <= j < section_index(s, k, i) ==> (#[trigger] s[j]).0@ != k,
    decreases s.len() - i,
{
    if i < s.len() && s[i].0@ != k {
        lemma_section_index(s, k, i + 1);
    }
}

/// The state is kept below the directory for state where there is one, whatever the home
/// directory is, and else below the home directory; the configuration is looked for below its own.
pub proof fn law_own_directories(dir: Seq<char>, home: Seq<char>, other: Seq<char>)
    requires
        dir.len() > 0,
    ensures
        state_dir_in(Some(dir), home) == state_dir_in(Some(dir), other),
        components_of(state_dir_in(Some(dir), home)) == components_of(dir).push("lupa"@),
        state_dir_in(None, home) == state_dir_in(
            Some(path_joined(home, ".local/state"@)),
            other,
        ),
        config_file_in(Some(dir)) == path_joined(dir, "lupa/config.toml"@),
        config_file_in(None) == config_file_in(Some("/tmp"@)),
{
    reveal_strlit("lupa");
    let n = "lupa"@;
    assert(n.len() == 4);
    assert(!n.contains('/')) by {
        assert(n[0] == 'l' && n[1] == 'u' && n[2] == 'p' && n[3] == 'a');
    }
    crate::paths::law_joined_path(dir, n, n);
}

/// The settings of the library itself are these and no others; every other section belongs to a
/// plug-in.
pub proof fn law_known_keys<V>(k: String, v: V)
    ensures
        plugin_entries(seq![(k, v)]) == (if k@ == "roots"@ || k@ == "exclude"@ || k@
            == "exclude_regex"@ || k@ == "max_file_size_mb"@ || k@ == "extractor_timeout_secs"@
            || k@ == "ranking"@ || k@ == "keybindings"@ {
            Seq::<(String, V)>::empty()
        } else {
            seq![(k, v)]
        }),
{
    let s = seq![(k, v)];
    assert(s.drop_last() =~= Seq::<(String, V)>::empty());
    assert(plugin_entries(s.drop_last()) =~= Seq::<(String, V)>::empty());
    if is_known_key(k@) {
        assert(plugin_entries(s) =~= Seq::<(String, V)>::empty());
    } else {
        assert(plugin_entries(s) =~= s);
    }
}

}
