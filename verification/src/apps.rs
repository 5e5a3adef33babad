//! Applications: desktop files and the documents made of them.
use crate::model::{Action, Category, DocId, Document};
use crate::paths::{extension, file_stem, path_join};
use crate::split::{join, lines, split, split_whitespace};
use crate::text::{begins, same, split_once, to_ascii_lowercase, trim};
use vstd::prelude::*;
use vstd::string::*;

verus! {

use crate::model::{document_views, ActionView, DocumentView};
use crate::paths::{extension_of, file_stem_of, path_joined};
use crate::split::{joined, lines_of, pieces, words_of};
use crate::text::{ascii_lowercase, lemma_views_push, opt_view, split_at_first, starts_with, trimmed, views};

/// The directories in which desktop files are looked for.
pub struct AppsSource {
    pub search_dirs: Vec<String>,
}

/// What a desktop file says of an application.
pub struct DesktopEntry {
    pub id: String,
    pub name: String,
    pub command: String,
    pub terminal: bool,
    pub working_dir: Option<String>,
}

/// What has been read of a desktop file: the name, the command, whether it runs in a
/// terminal, and whether the lines that follow belong to the main group.
pub struct DesktopState {
    pub name: Seq<char>,
    pub command: Seq<char>,
    pub terminal: bool,
    pub inside: bool,
}

/// The words that are no field codes.
pub open spec fn without_codes(words: Seq<Seq<char>>) -> Seq<Seq<char>>
    decreases words.len(),
{
    if words.len() == 0 {
        Seq::empty()
    } else if starts_with(words.last(), "%"@) {
        without_codes(words.drop_last())
    } else {
        without_codes(words.drop_last()).push(words.last())
    }
}

/// The command that the value of an `Exec` line gives.
pub open spec fn command_of(val: Seq<char>) -> Seq<char> {
    joined(without_codes(words_of(trimmed(val))), " "@)
}

/// The state before the first line.
pub open spec fn desktop_start() -> DesktopState {
    DesktopState { name: Seq::empty(), command: Seq::empty(), terminal: false, inside: false }
}

/// The state after one more line.
pub open spec fn desktop_step(s: DesktopState, line: Seq<char>) -> DesktopState {
    if trimmed(line) == "[Desktop Entry]"@ {
        DesktopState { inside: true, ..s }
    } else if starts_with(line, "["@) {
        DesktopState { inside: false, ..s }
    } else if !s.inside {
        s
    } else {
        match split_at_first(line, '=') {
            None => s,
            Some((key, val)) => if trimmed(key) == "Name"@ && s.name.len() == 0 {
                DesktopState { name: trimmed(val), ..s }
            } else if trimmed(key) == "Exec"@ {
                DesktopState { command: command_of(val), ..s }
            } else if trimmed(key) == "Terminal"@ {
                DesktopState { terminal: ascii_lowercase(trimmed(val)) == "true"@, ..s }
            } else {
                s
            },
        }
    }
}

/// The state after the given lines.
pub open spec fn desktop_lines(lines: Seq<Seq<char>>) -> DesktopState
    decreases lines.len(),
{
    if lines.len() == 0 {
        desktop_start()
    } else {
        desktop_step(desktop_lines(lines.drop_last()), lines.last())
    }
}

/// What a desktop file says, where it has a name and a command and the path has a file name.
pub open spec fn desktop_entry(path: Seq<char>, content: Seq<char>) -> Option<
    (Seq<char>, DesktopState),
> {
    let s = desktop_lines(lines_of(content));
    if s.name.len() == 0 || s.command.len() == 0 {
        None
    } else {
        match file_stem_of(path) {
            Some(stem) => Some((stem, s)),
            None => None,
        }
    }
}

/// The command that the value of an `Exec` line gives.
fn parse_command(val: &str) -> (r: String)
    ensures
        r@ == command_of(val@),
{
    let words = split_whitespace(trim(val).as_str());
    let ghost all = words_of(trimmed(val@));
    let mut kept: Vec<String> = Vec::new();
    let mut i: usize = 0;
    assert(all.take(0) =~= Seq::<Seq<char>>::empty());
    while i < words.len()
        invariant
            i <= words@.len(),
            views(words@) == all,
            views(kept@) =~= without_codes(all.take(i as int)),
        decreases words.len() - i,
    {
        proof {
            assert(all.take(i + 1).drop_last() =~= all.take(i as int));
            assert(all.take(i + 1).last() == words@[i as int]@);
        }
        if !begins(words[i].as_str(), "%") {
            let ghost before = kept@;
            kept.push(words[i].clone());
            proof {
                lemma_views_push(before, kept@.last());
            }
        }
        i = i + 1;
    }
    assert(all.take(i as int) =~= all);
    join(&kept, " ")
}

/// The list of directories for the given values of the environment.
pub open spec fn search_dirs_of(
    data_dirs: Option<Seq<char>>,
    data_home: Option<Seq<char>>,
    home: Option<Seq<char>>,
) -> Seq<Seq<char>> {
    let system = match data_dirs {
        Some(d) => app_dirs(pieces(d, ':')),
        None => seq!["/usr/share/applications"@, "/usr/local/share/applications"@],
    };
    match data_home {
        Some(d) => system.push(path_joined(d, "applications"@)),
        None => match home {
            Some(h) => system.push(path_joined(h, ".local/share/applications"@)),
            None => system,
        },
    }
}

/// The directories for applications below the given ones.
pub open spec fn app_dirs(dirs: Seq<Seq<char>>) -> Seq<Seq<char>> {
    Seq::new(dirs.len(), |i: int| path_joined(dirs[i], "applications"@))
}

/// The document of an application.
pub open spec fn app_document(path: Seq<char>, id: Seq<char>, s: DesktopState) -> DocumentView {
    DocumentView {
        id: "app:"@ + id,
        category: Category::App,
        title: s.name,
        subtitle: id,
        icon_name: None,
        kind_label: None,
        body: None,
        path,
        mtime: 0,
        size: 0,
        action: ActionView::Launch { command: s.command, terminal: s.terminal, working_dir: None },
        extract_fail: false,
    }
}

/// A file that was found: its path, and its content where it could be read.
pub open spec fn found_view(f: (String, Option<String>)) -> (Seq<char>, Option<Seq<char>>) {
    (f.0@, opt_view(f.1))
}

/// The files that were found.
pub open spec fn found_views(v: Seq<(String, Option<String>)>) -> Seq<
    (Seq<char>, Option<Seq<char>>),
> {
    Seq::new(v.len(), |i: int| found_view(v[i]))
}

/// The document of a file, where it is a desktop file that describes an application.
pub open spec fn file_document(f: (Seq<char>, Option<Seq<char>>)) -> Option<DocumentView> {
    if extension_of(f.0) != Some("desktop"@) {
        None
    } else {
        match f.1 {
            None => None,
            Some(content) => match desktop_entry(f.0, content) {
                Some((id, s)) => Some(app_document(f.0, id, s)),
                None => None,
            },
        }
    }
}

/// The documents of the files, in their order.
pub open spec fn file_documents(files: Seq<(Seq<char>, Option<Seq<char>>)>) -> Seq<DocumentView>
    decreases files.len(),
{
    if files.len() == 0 {
        Seq::empty()
    } else {
        match file_document(files.last()) {
            Some(d) => file_documents(files.drop_last()).push(d),
            None => file_documents(files.drop_last()),
        }
    }
}

/// Whether a file is a desktop file.
pub fn is_desktop_file(path: &str) -> (r: bool)
    ensures
        r == (extension_of(path@) == Some("desktop"@)),
{
    match extension(path) {
        Some(e) => same(e.as_str(), "desktop"),
        None => false,
    }
}

impl AppsSource {
    /// The source for the given values of `XDG_DATA_DIRS`, `XDG_DATA_HOME` and `HOME`.
    pub fn new(data_dirs: Option<&str>, data_home: Option<&str>, home: Option<&str>) -> (r: Self)
        ensures
            views(r.search_dirs@) == search_dirs_of(
                (match data_dirs {
                    Some(s) => Some(s@),
                    None => None,
                }),
                (match data_home {
                    Some(s) => Some(s@),
                    None => None,
                }),
                (match home {
                    Some(s) => Some(s@),
                    None => None,
                }),
            ),
    {
        let mut dirs: Vec<String> = Vec::new();
        match data_dirs {
            Some(list) => {
                let parts = split(list, ':');
                let ghost all = pieces(list@, ':');
                let mut i: usize = 0;
                while i < parts.len()
                    invariant
                        i <= parts@.len(),
                        views(parts@) == all,
                        views(dirs@) =~= app_dirs(all.take(i as int)),
                    decreases parts.len() - i,
                {
                    let ghost before = dirs@;
                    dirs.push(path_join(parts[i].as_str(), "applications"));
                    proof {
                        lemma_views_push(before, dirs@.last());
                        assert(parts@[i as int]@ == all[i as int]);
                        assert(app_dirs(all.take(i + 1)) =~= app_dirs(all.take(i as int)).push(
                            path_joined(all[i as int], "applications"@),
                        ));
                    }
                    i = i + 1;
                }
                assert(all.take(i as int) =~= all);
            },
            None => {
                dirs.push("/usr/share/applications".to_owned());
                dirs.push("/usr/local/share/applications".to_owned());
                assert(views(dirs@) =~= seq![
                    "/usr/share/applications"@,
                    "/usr/local/share/applications"@,
                ]);
            },
        }
        let ghost system = dirs@;
        match data_home {
            Some(d) => {
                dirs.push(path_join(d, "applications"));
                proof {
                    lemma_views_push(system, dirs@.last());
                }
            },
            None => {
                match home {
                    Some(h) => {
                        dirs.push(path_join(h, ".local/share/applications"));
                        proof {
                            lemma_views_push(system, dirs@.last());
                        }
                    },
                    None => {},
                }
            },
        }
        AppsSource { search_dirs: dirs }
    }

    /// The name of the source.
    pub fn name(&self) -> (r: &'static str)
        ensures
            r@ == "applications"@,
    {
        "applications"
    }

    /// Reads the content of the desktop file at a path.
    pub fn parse_desktop_file(path: &str, content: &str) -> (r: Option<DesktopEntry>)
        ensures
            r is Some <==> desktop_entry(path@, content@) is Some,
            r matches Some(e) ==> ({
                let (id, s) = desktop_entry(path@, content@)->0;
                &&& e.id@ == id
                &&& e.name@ == s.name
                &&& e.command@ == s.command
                &&& e.terminal == s.terminal
                &&& e.working_dir is None
            }),
    {
        let ls = lines(content);
        let ghost all = lines_of(content@);
        let mut name = String::new();
        let mut command = String::new();
        let mut terminal = false;
        let mut inside = false;
        let mut i: usize = 0;
        assert(all.take(0) =~= Seq::<Seq<char>>::empty());
        while i < ls.len()
            invariant
                i <= ls@.len(),
                views(ls@) == all,
                desktop_lines(all.take(i as int)) == (DesktopState {
                    name: name@,
                    command: command@,
                    terminal,
                    inside,
                }),
            decreases ls.len() - i,
        {
            proof {
                assert(all.take(i + 1).drop_last() =~= all.take(i as int));
                assert(all.take(i + 1).last() == ls@[i as int]@);
            }
            let line = ls[i].as_str();
            if same(trim(line).as_str(), "[Desktop Entry]") {
                inside = true;
            } else if begins(line, "[") {
                inside = false;
            } else if inside {
                match split_once(line, '=') {
                    Some((key, val)) => {
                        let key = trim(key.as_str());
                        let val = val.as_str();
                        if same(key.as_str(), "Name") && name.as_str().is_empty() {
                            name = trim(val);
                        } else if same(key.as_str(), "Exec") {
                            command = parse_command(val);
                        } else if same(key.as_str(), "Terminal") {
                            terminal = same(
                                to_ascii_lowercase(trim(val).as_str()).as_str(),
                                "true",
                            );
                        }
                    },
                    None => {},
                }
            }
            i = i + 1;
        }
        assert(all.take(i as int) =~= all);
        if name.as_str().is_empty() || command.as_str().is_empty() {
            return None;
        }
        match file_stem(path) {
            Some(id) => Some(DesktopEntry { id, name, command, terminal, working_dir: None }),
            None => None,
        }
    }

    /// The document of an application.
    pub fn document(path: &str, entry: DesktopEntry) -> (r: Document)
        ensures
            r@.id == "app:"@ + entry.id@,
            r@.category == Category::App,
            r@.title == entry.name@,
            r@.subtitle == entry.id@,
            r@.icon_name is None && r@.kind_label is None && r@.body is None,
            r@.path == path@,
            r@.mtime == 0 && r@.size == 0,
            r@.action == (ActionView::Launch {
                command: entry.command@,
                terminal: entry.terminal,
                working_dir: opt_view(entry.working_dir),
            }),
            !r@.extract_fail,
    {
        let mut id = String::new();
        id.append("app:");
        id.append(entry.id.as_str());
        assert(id@ =~= "app:"@ + entry.id@);
        Document {
            id: DocId(id),
            category: Category::App,
            title: entry.name,
            subtitle: entry.id,
            icon_name: None,
            kind_label: None,
            body: None,
            path: path.to_owned(),
            mtime: 0,
            size: 0,
            action: Action::Launch {
                command: entry.command,
                terminal: entry.terminal,
                working_dir: entry.working_dir,
            },
            extract_fail: false,
        }
    }

    /// The documents of the files found in the directories, in their order. Each file comes
    /// with its content, where it could be read.
    pub fn index_files(files: &Vec<(String, Option<String>)>) -> (r: Vec<Document>)
        ensures
            document_views(r@) == file_documents(found_views(files@)),
    {
        let ghost all = found_views(files@);
        let mut docs: Vec<Document> = Vec::new();
        let mut i: usize = 0;
        assert(all.take(0) =~= Seq::<(Seq<char>, Option<Seq<char>>)>::empty());
        while i < files.len()
            invariant
                i <= files@.len(),
                all == found_views(files@),
                document_views(docs@) =~= file_documents(all.take(i as int)),
            decreases files.len() - i,
        {
            proof {
                assert(all.take(i + 1).drop_last() =~= all.take(i as int));
                assert(all.take(i + 1).last() == found_view(files@[i as int]));
            }
            let path = files[i].0.as_str();
            if is_desktop_file(path) {
                match &files[i].1 {
                    Some(content) => {
                        match AppsSource::parse_desktop_file(path, content.as_str()) {
                            Some(e) => {
                                let ghost before = docs@;
                                let d = AppsSource::document(path, e);
                                let ghost dv = d@;
                                docs.push(d);
                                proof {
                                    assert(document_views(docs@) =~= document_views(before).push(
                                        dv,
                                    ));
                                    let (id, s) = desktop_entry(path@, content@)->0;
                                    assert(dv == app_document(path@, id, s));
                                }
                            },
                            None => {},
                        }
                    },
                    None => {},
                }
            }
            i = i + 1;
        }
        assert(all.take(i as int) =~= all);
        docs
    }
}

/// The words left after the field codes are dropped are words of the command, and none of
/// them is a field code.
pub proof fn law_without_codes(words: Seq<Seq<char>>)
    ensures
        forall|i: int|
            0 <= i < without_codes(words).len() ==> !starts_with(
                #[trigger] without_codes(words)[i],
                "%"@,
            ) && words.contains(without_codes(words)[i]),
        (forall|i: int| 0 <= i < words.len() ==> !starts_with(#[trigger] words[i], "%"@))
            ==> without_codes(words) == words,
    decreases words.len(),
{
    if words.len() > 0 {
        let t = words.drop_last();
        law_without_codes(t);
        let w = without_codes(words);
        assert forall|i: int| 0 <= i < w.len() implies !starts_with(#[trigger] w[i], "%"@)
            && words.contains(w[i]) by {
            let b = without_codes(t);
            if i < b.len() {
                assert(w[i] == b[i]);
                assert(t.contains(b[i]));
                let k = choose|k: int| 0 <= k < t.len() && t[k] == b[i];
                assert(words[k] == w[i]);
            } else {
                assert(words[words.len() - 1] == w[i]);
            }
        }
        if forall|i: int| 0 <= i < words.len() ==> !starts_with(#[trigger] words[i], "%"@) {
            assert(forall|i: int| 0 <= i < t.len() ==> #[trigger] t[i] == words[i]);
            assert(without_codes(t) == t);
            assert(words =~= t.push(words.last()));
        }
    } else {
        assert(words =~= Seq::<Seq<char>>::empty());
    }
}

/// The field codes are taken out of a command word by word: two runs of words are cleared of
/// them separately, a word that is no code stays, and a code goes.
pub proof fn law_codes_word_by_word(a: Seq<Seq<char>>, b: Seq<Seq<char>>, word: Seq<char>)
    ensures
        without_codes(a + b) == without_codes(a) + without_codes(b),
        without_codes(seq![word]) == (if word.len() > 0 && word[0] == '%' {
            Seq::<Seq<char>>::empty()
        } else {
            seq![word]
        }),
    decreases b.len(),
{
    reveal_strlit("%");
    let one = seq![word];
    assert(one.drop_last() =~= Seq::<Seq<char>>::empty());
    assert(word.len() > 0 ==> word.take(1) =~= seq![word[0]]);
    assert("%"@ =~= seq!['%']);
    if word.len() > 0 {
        assert(word.take(1)[0] == word[0]);
        assert(seq!['%'][0] == '%');
    }
    assert(starts_with(word, "%"@) == (word.len() > 0 && word[0] == '%'));
    assert(without_codes(one.drop_last()) =~= Seq::<Seq<char>>::empty());
    if starts_with(word, "%"@) {
        assert(without_codes(one) =~= Seq::<Seq<char>>::empty());
    } else {
        assert(without_codes(one) =~= one);
    }
    if b.len() == 0 {
        assert(a + b =~= a);
        assert(without_codes(a + b) =~= without_codes(a) + without_codes(b));
    } else {
        law_codes_word_by_word(a, b.drop_last(), word);
        assert((a + b).drop_last() =~= a + b.drop_last());
        assert((a + b).last() == b.last());
        assert(without_codes(a + b) =~= without_codes(a) + without_codes(b));
    }
}

/// The words of a command are those of the value that it is read from, without the field codes.
pub proof fn law_command_words(val: Seq<char>)
    ensures
        words_of(command_of(val)) == without_codes(words_of(trimmed(val))),
        command_of(val).len() == 0 <==> without_codes(words_of(trimmed(val))).len() == 0,
{
    let w = words_of(trimmed(val));
    let v = without_codes(w);
    crate::split::law_words(trimmed(val));
    law_without_codes(w);
    assert forall|i: int| 0 <= i < v.len() implies crate::split::is_word(#[trigger] v[i]) by {
        assert(w.contains(v[i]));
    }
    crate::split::law_words_joined(v);
    if v.len() > 0 && command_of(val).len() == 0 {
        assert(command_of(val) =~= Seq::empty());
        assert(words_of(command_of(val)).len() == 0);
    }
}

/// A line that opens the group of the entry itself.
pub open spec fn opens_entry(line: Seq<char>) -> bool {
    trimmed(line) == "[Desktop Entry]"@
}

/// A line that opens some group, the entry's own or another.
pub open spec fn opens_group(line: Seq<char>) -> bool {
    opens_entry(line) || (line.len() > 0 && line[0] == '[')
}

proof fn lemma_opens_group(line: Seq<char>)
    ensures
        opens_group(line) <==> opens_entry(line) || starts_with(line, "["@),
{
    reveal_strlit("[");
    assert("["@ =~= seq!['[']);
    if line.len() > 0 {
        assert(line.take(1) =~= seq![line[0]]);
        assert(line.take(1)[0] == line[0]);
        assert(seq!['['][0] == '[');
    }
}

/// The reading stands in the entry's own group exactly if the last line so far that opened any
/// group opened that one.
pub proof fn law_inside(lines: Seq<Seq<char>>)
    ensures
        desktop_lines(lines).inside <==> exists|i: int|
            0 <= i < lines.len() && #[trigger] opens_entry(lines[i]) && forall|j: int|
                i < j < lines.len() ==> !opens_group(#[trigger] lines[j]),
    decreases lines.len(),
{
    if lines.len() > 0 {
        let t = lines.drop_last();
        let n = lines.len() - 1;
        law_inside(t);
        lemma_opens_group(lines.last());
        if opens_entry(lines.last()) {
            assert(opens_entry(lines[n]));
        } else if opens_group(lines.last()) {
            assert forall|i: int|
                0 <= i < lines.len() && #[trigger] opens_entry(lines[i]) implies exists|j: int|
                i < j < lines.len() && opens_group(#[trigger] lines[j]) by {
                assert(opens_group(lines[n]));
            }
        } else {
            if desktop_lines(t).inside {
                let i = choose|i: int|
                    0 <= i < t.len() && #[trigger] opens_entry(t[i]) && forall|j: int|
                        i < j < t.len() ==> !opens_group(#[trigger] t[j]);
                assert(opens_entry(lines[i]));
                assert forall|j: int| i < j < lines.len() implies !opens_group(
                    #[trigger] lines[j],
                ) by {
                    if j < n {
                        assert(lines[j] == t[j]);
                    }
                }
            }
            if exists|i: int|
                0 <= i < lines.len() && #[trigger] opens_entry(lines[i]) && forall|j: int|
                    i < j < lines.len() ==> !opens_group(#[trigger] lines[j]) {
                let i = choose|i: int|
                    0 <= i < lines.len() && #[trigger] opens_entry(lines[i]) && forall|j: int|
                        i < j < lines.len() ==> !opens_group(#[trigger] lines[j]);
                assert(opens_entry(t[i]));
                assert forall|j: int| i < j < t.len() implies !opens_group(#[trigger] t[j]) by {
                    assert(lines[j] == t[j]);
                }
            }
        }
    }
}

/// Only lines of the entry's own group count: lines after the opening of another group, and
/// lines before any, leave the name, the command and the terminal flag as they were, whatever
/// they say.
pub proof fn law_other_groups_do_not_count(
    before: Seq<Seq<char>>,
    header: Seq<char>,
    rest: Seq<Seq<char>>,
)
    requires
        opens_group(header) && !opens_entry(header),
        forall|i: int| 0 <= i < rest.len() ==> !opens_entry(#[trigger] rest[i]),
    ensures
        ({
            let s = desktop_lines(before);
            let t = desktop_lines(before + seq![header] + rest);
            &&& t.name == s.name
            &&& t.command == s.command
            &&& t.terminal == s.terminal
            &&& !t.inside
        }),
        ({
            let u = desktop_lines(rest);
            u.name.len() == 0 && u.command.len() == 0 && !u.terminal && !u.inside
        }),
    decreases rest.len(),
{
    let all = before + seq![header] + rest;
    lemma_opens_group(header);
    if rest.len() == 0 {
        assert(all.drop_last() =~= before);
        assert(all.last() == header);
    } else {
        let r = rest.drop_last();
        assert forall|i: int| 0 <= i < r.len() implies !opens_entry(#[trigger] r[i]) by {
            assert(r[i] == rest[i]);
        }
        law_other_groups_do_not_count(before, header, r);
        assert(all.drop_last() =~= before + seq![header] + r);
        assert(all.last() == rest.last());
        assert(rest.last() == rest[rest.len() - 1]);
        assert(!opens_entry(rest.last()));
    }
}

/// In the entry's own group the first name that is not blank counts, the last command, and the
/// last terminal flag, each set by its own key alone; no other line changes anything.
pub proof fn law_entry_lines(lines: Seq<Seq<char>>, key: Seq<char>, val: Seq<char>)
    requires
        desktop_lines(lines).inside,
        !key.contains('='),
        !opens_group(key + seq!['='] + val),
    ensures
        ({
            let s = desktop_lines(lines);
            let t = desktop_lines(lines.push(key + seq!['='] + val));
            &&& t.inside
            &&& trimmed(key) == "Name"@ ==> t.name == (if s.name.len() == 0 {
                trimmed(val)
            } else {
                s.name
            })
            &&& trimmed(key) != "Name"@ ==> t.name == s.name
            &&& trimmed(key) == "Exec"@ ==> words_of(t.command) == without_codes(
                words_of(trimmed(val)),
            )
            &&& trimmed(key) != "Exec"@ ==> t.command == s.command
            &&& trimmed(key) == "Terminal"@ ==> t.terminal == (ascii_lowercase(trimmed(val))
                == "true"@)
            &&& trimmed(key) != "Terminal"@ ==> t.terminal == s.terminal
        }),
        forall|line: Seq<char>|
            !line.contains('=') && !opens_group(line) ==> #[trigger] desktop_lines(lines.push(line))
                == desktop_lines(lines),
{
    reveal_strlit("Name");
    reveal_strlit("Exec");
    reveal_strlit("Terminal");
    let line = key + seq!['='] + val;
    lemma_opens_group(line);
    crate::text::law_split_at_first(key, '=', val);
    law_command_words(val);
    assert(lines.push(line).drop_last() =~= lines);
    assert("Name"@[0] == 'N' && "Exec"@[0] == 'E' && "Terminal"@[0] == 'T');
    assert forall|l: Seq<char>| !l.contains('=') && !opens_group(l) implies #[trigger] desktop_lines(
        lines.push(l),
    ) == desktop_lines(lines) by {
        lemma_opens_group(l);
        crate::text::law_split_at_first(l, '=', Seq::empty());
        assert(lines.push(l).drop_last() =~= lines);
    }
}

/// The lines that open groups change nothing but the group that the reading stands in.
pub proof fn law_group_lines(lines: Seq<Seq<char>>, line: Seq<char>)
    requires
        opens_group(line),
    ensures
        ({
            let s = desktop_lines(lines);
            let t = desktop_lines(lines.push(line));
            t.name == s.name && t.command == s.command && t.terminal == s.terminal && t.inside
                == opens_entry(line)
        }),
{
    lemma_opens_group(line);
    assert(lines.push(line).drop_last() =~= lines);
}

/// A file is an application exactly if it has a name, a command and a file name; launching
/// its document runs the command that the file gives.
pub proof fn law_application(path: Seq<char>, content: Seq<char>, is_dir: bool)
    ensures
        ({
            let s = desktop_lines(lines_of(content));
            let f = file_document((path, Some(content)));
            &&& f is Some <==> (extension_of(path) == Some("desktop"@) && s.name.len() > 0
                && s.command.len() > 0)
            &&& file_document((path, None)) is None
            &&& f matches Some(d) ==> {
                &&& d.title == s.name
                &&& d.path == path
                &&& d.category == Category::App
                &&& file_stem_of(path) == Some(d.subtitle)
                &&& d.id == "app:"@ + d.subtitle
                &&& d.action == (ActionView::Launch {
                    command: s.command,
                    terminal: s.terminal,
                    working_dir: None,
                })
                &&& !d.extract_fail && d.body is None
            }
        }),
{
}

/// The documents of a list of files are those of each file, in the order of the files; a file
/// that is no application has none.
pub proof fn law_documents_of_files(
    a: Seq<(Seq<char>, Option<Seq<char>>)>,
    f: (Seq<char>, Option<Seq<char>>),
    b: Seq<(Seq<char>, Option<Seq<char>>)>,
)
    ensures
        file_document(f) is None ==> file_documents(a + seq![f] + b) == file_documents(a)
            + file_documents(b),
        file_document(f) matches Some(d) ==> file_documents(a + seq![f] + b) == file_documents(
            a,
        ) + seq![d] + file_documents(b),
    decreases b.len(),
{
    let all = a + seq![f] + b;
    if b.len() == 0 {
        assert(all.drop_last() =~= a);
        assert(all.last() == f);
        if file_document(f) is Some {
            assert(file_documents(all) =~= file_documents(a) + seq![file_document(f)->0]
                + file_documents(b));
        } else {
            assert(file_documents(all) =~= file_documents(a) + file_documents(b));
        }
    } else {
        law_documents_of_files(a, f, b.drop_last());
        assert(all.drop_last() =~= a + seq![f] + b.drop_last());
        assert(all.last() == b.last());
        if file_document(f) is Some {
            assert(file_documents(all) =~= file_documents(a) + seq![file_document(f)->0]
                + file_documents(b));
        } else {
            assert(file_documents(all) =~= file_documents(a) + file_documents(b));
        }
    }
}

/// Applications are looked for below every data directory that is named, in that order, and
/// below the user's own last.
pub proof fn law_search_dirs(
    dirs: Seq<char>,
    more: Seq<char>,
    data_home: Option<Seq<char>>,
    home: Option<Seq<char>>,
)
    ensures
        ({
            let both = search_dirs_of(Some(dirs + seq![':'] + more), None, None);
            &&& both == search_dirs_of(Some(dirs), None, None) + search_dirs_of(
                Some(more),
                None,
                None,
            )
            &&& !dirs.contains(':') ==> search_dirs_of(Some(dirs), None, None) == seq![
                path_joined(dirs, "applications"@),
            ]
            &&& data_home matches Some(d) ==> search_dirs_of(Some(dirs), data_home, home)
                == search_dirs_of(Some(dirs), None, None).push(path_joined(d, "applications"@))
            &&& data_home is None ==> (home matches Some(h) ==> search_dirs_of(
                Some(dirs),
                data_home,
                home,
            ) == search_dirs_of(Some(dirs), None, None).push(
                path_joined(h, ".local/share/applications"@),
            ))
            &&& search_dirs_of(None, None, None) == search_dirs_of(
                Some("/usr/share:/usr/local/share"@),
                None,
                None,
            )
        }),
{
    crate::split::law_pieces(dirs, ':', more);
    assert(app_dirs(pieces(dirs, ':') + pieces(more, ':')) =~= app_dirs(pieces(dirs, ':'))
        + app_dirs(pieces(more, ':')));
    if !dirs.contains(':') {
        assert(app_dirs(seq![dirs]) =~= seq![path_joined(dirs, "applications"@)]);
    }
    let a = "/usr/share"@;
    let b = "/usr/local/share"@;
    reveal_strlit("/usr/share:/usr/local/share");
    reveal_strlit("/usr/share");
    reveal_strlit("/usr/local/share");
    reveal_strlit("applications");
    reveal_strlit("/usr/share/applications");
    reveal_strlit("/usr/local/share/applications");
    assert("/usr/share:/usr/local/share"@ =~= a + seq![':'] + b);
    crate::split::law_pieces(a, ':', b);
    crate::split::law_pieces(b, ':', a);
    assert(pieces(a + seq![':'] + b, ':') =~= seq![a, b]);
    assert(path_joined(a, "applications"@) =~= "/usr/share/applications"@);
    assert(path_joined(b, "applications"@) =~= "/usr/local/share/applications"@);
    assert(app_dirs(seq![a, b]) =~= seq![
        "/usr/share/applications"@,
        "/usr/local/share/applications"@,
    ]);
}

}
