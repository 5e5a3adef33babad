//! Maildir folders: which files are messages, which folder they are in, and their flags.
use crate::paths::{components_below, file_name, parent_name};
use crate::split::join;
use crate::text::{chars_of, find_chars, same};
use vstd::prelude::*;
use vstd::string::*;

verus! {

use crate::paths::{below, file_name_of, parent_name_of, path_joined};
use crate::split::joined;
use crate::text::{first_at, lemma_views_push, occurs, views};

/// Whether a file lies directly in one of the directories that hold delivered messages.
pub open spec fn message_path(path: Seq<char>) -> bool {
    parent_name_of(path) == Some("cur"@) || parent_name_of(path) == Some("new"@)
}

/// Whether a file lies directly in a `cur` or `new` directory.
pub fn is_message_path(path: &str) -> (r: bool)
    ensures
        r == message_path(path@),
{
    match parent_name(path) {
        Some(n) => same(n.as_str(), "cur") || same(n.as_str(), "new"),
        None => false,
    }
}

/// Whether a path names a directory in which messages are being delivered.
pub fn is_tmp_dir(path: &str) -> (r: bool)
    ensures
        r == (file_name_of(path@) == Some("tmp"@)),
{
    match file_name(path) {
        Some(n) => same(n.as_str(), "tmp"),
        None => false,
    }
}

/// What a walk does with a file or directory that it meets.
#[derive(Debug, Clone, Copy, PartialEq, Eq, Structural)]
pub enum WalkStep {
    /// Neither keep it nor go below it.
    Prune,
    /// Go on; it is no message.
    Pass,
    /// Keep it as a message.
    Keep,
}

/// What the walk over a mail directory does at a path.
pub open spec fn step_at(path: Seq<char>, is_file: bool) -> WalkStep {
    if file_name_of(path) == Some("tmp"@) {
        WalkStep::Prune
    } else if is_file && message_path(path) {
        WalkStep::Keep
    } else {
        WalkStep::Pass
    }
}

/// What a walk over a maildir does with an entry.
pub fn walk_step(path: &str, is_file: bool) -> (r: WalkStep)
    ensures
        r == step_at(path@, is_file),
{
    if is_tmp_dir(path) {
        WalkStep::Prune
    } else if is_file && is_message_path(path) {
        WalkStep::Keep
    } else {
        WalkStep::Pass
    }
}

/// Whether a component is one of the three directories of a maildir.
pub open spec fn delivery_dir(c: Seq<char>) -> bool {
    c == "cur"@ || c == "new"@ || c == "tmp"@
}

/// The components up to the first delivery directory.
pub open spec fn folder_parts(c: Seq<Seq<char>>) -> Seq<Seq<char>>
    decreases c.len(),
{
    if c.len() == 0 || delivery_dir(c[0]) {
        Seq::empty()
    } else {
        seq![c[0]] + folder_parts(c.skip(1))
    }
}

/// The name of the folder that a message is in.
pub open spec fn folder(root: Seq<char>, path: Seq<char>) -> Seq<char> {
    let parts = folder_parts(below(root, path));
    if parts.len() == 0 {
        "INBOX"@
    } else {
        joined(parts, "/"@)
    }
}

/// The name of the folder that a message is in.
pub fn derive_folder(root: &str, message_path: &str) -> (r: String)
    ensures
        r@ == folder(root@, message_path@),
{
    let rel = components_below(root, message_path);
    let ghost all = below(root@, message_path@);
    let mut parts: Vec<String> = Vec::new();
    let mut i: usize = 0;
    assert(all.skip(0) =~= all);
    while i < rel.len()
        invariant_except_break
            i <= rel@.len(),
            views(rel@) == all,
            views(parts@) + folder_parts(all.skip(i as int)) =~= folder_parts(all),
        ensures
            views(parts@) =~= folder_parts(all),
        decreases rel.len() - i,
    {
        let ghost here = all.skip(i as int);
        assert(here[0] == rel@[i as int]@);
        let c = rel[i].as_str();
        if same(c, "cur") || same(c, "new") || same(c, "tmp") {
            break;
        }
        let ghost before = parts@;
        parts.push(rel[i].clone());
        proof {
            lemma_views_push(before, parts@.last());
            assert(here.skip(1) =~= all.skip(i + 1));
        }
        i = i + 1;
    }
    if parts.len() == 0 {
        "INBOX".to_owned()
    } else {
        join(&parts, "/")
    }
}

/// The name of the flag that a letter stands for.
pub open spec fn flag_name(c: char) -> Option<Seq<char>> {
    if c == 'S' {
        Some("seen"@)
    } else if c == 'R' {
        Some("replied"@)
    } else if c == 'F' {
        Some("flagged"@)
    } else if c == 'D' {
        Some("draft"@)
    } else if c == 'P' {
        Some("passed"@)
    } else if c == 'T' {
        Some("trashed"@)
    } else {
        None
    }
}

/// The names of the flags that the letters stand for, in the order in which each first
/// comes; other letters stand for nothing.
pub open spec fn flags_of(letters: Seq<char>) -> Seq<Seq<char>>
    decreases letters.len(),
{
    if letters.len() == 0 {
        Seq::empty()
    } else {
        let before = flags_of(letters.drop_last());
        match flag_name(letters.last()) {
            Some(f) => if before.contains(f) {
                before
            } else {
                before.push(f)
            },
            None => before,
        }
    }
}

/// The texts of a list of fixed strings.
pub open spec fn static_views(v: Seq<&'static str>) -> Seq<Seq<char>> {
    Seq::new(v.len(), |i: int| v[i]@)
}

/// The name of the flag that a letter stands for.
fn flag(c: char) -> (r: Option<&'static str>)
    ensures
        r matches Some(f) ==> flag_name(c) == Some(f@),
        r is None ==> flag_name(c) is None,
{
    match c {
        'S' => Some("seen"),
        'R' => Some("replied"),
        'F' => Some("flagged"),
        'D' => Some("draft"),
        'P' => Some("passed"),
        'T' => Some("trashed"),
        _ => None,
    }
}

/// The flags in the name of a message file: those after the first `:2,`, each once.
pub fn parse_flags(filename: &str) -> (r: Vec<&'static str>)
    ensures
        forall|at: int|
            #[trigger] first_at(filename@, ":2,"@, at) ==> static_views(r@) == flags_of(
                filename@.skip(at + 3),
            ),
        !occurs(filename@, ":2,"@) ==> r@.len() == 0,
{
    proof {
        reveal_strlit(":2,");
    }
    let cs = chars_of(filename);
    let mark = chars_of(":2,");
    let mut flags: Vec<&'static str> = Vec::new();
    let at = match find_chars(&cs, &mark) {
        Some(at) => at,
        None => {
            assert forall|at: int| #[trigger] first_at(filename@, ":2,"@, at) implies false by {
                assert(crate::text::occurs_at(filename@, ":2,"@, at));
            }
            return flags;
        },
    };
    assert(mark@.len() == 3);
    assert(at + 3 <= cs.len());
    let start: usize = at + 3;
    let ghost letters = filename@.skip(start as int);
    let mut i: usize = start;
    assert(letters.take(0) =~= Seq::<char>::empty());
    assert(static_views(flags@) =~= Seq::<Seq<char>>::empty());
    while i < cs.len()
        invariant
            start <= i <= cs@.len(),
            cs@ == filename@,
            letters == filename@.skip(start as int),
            static_views(flags@) =~= flags_of(letters.take(i - start)),
        decreases cs.len() - i,
    {
        let c = cs[i];
        proof {
            assert(letters.take(i - start + 1).drop_last() =~= letters.take(i - start));
            assert(letters.take(i - start + 1).last() == c);
        }
        match flag(c) {
            Some(f) => {
                let ghost before = flags@;
                if !has_static(&flags, f) {
                    flags.push(f);
                    assert(static_views(flags@) =~= static_views(before).push(f@));
                }
            },
            None => {},
        }
        i = i + 1;
    }
    proof {
        assert(letters.take(letters.len() as int) =~= letters);
        assert forall|b: int| #[trigger] first_at(filename@, ":2,"@, b) implies b == at by {
            assert(first_at(filename@, ":2,"@, at as int));
            if b < at {
                assert(!crate::text::occurs_at(filename@, ":2,"@, b));
            }
            if at < b {
                assert(!crate::text::occurs_at(filename@, ":2,"@, at as int));
            }
        }
        assert(crate::text::occurs_at(filename@, ":2,"@, at as int));
    }
    flags
}

/// Whether the list holds the text.
fn has_static(v: &Vec<&'static str>, s: &'static str) -> (r: bool)
    ensures
        r == static_views(v@).contains(s@),
{
    for i in 0..v.len()
        invariant
            forall|j: int| 0 <= j < i ==> v@[j]@ != s@,
    {
        if same(v[i], s) {
            assert(static_views(v@)[i as int] == s@);
            return true;
        }
    }
    false
}

/// No flag is named twice, and each named flag comes from a letter.
pub proof fn law_flags_distinct(letters: Seq<char>)
    ensures
        flags_of(letters).no_duplicates(),
        forall|f: Seq<char>| #[trigger]
            flags_of(letters).contains(f) <==> exists|i: int|
                0 <= i < letters.len() && flag_name(#[trigger] letters[i]) == Some(f),
    decreases letters.len(),
{
    if letters.len() > 0 {
        let t = letters.drop_last();
        law_flags_distinct(t);
        let before = flags_of(t);
        assert forall|f: Seq<char>| #[trigger]
            flags_of(letters).contains(f) <==> exists|i: int|
                0 <= i < letters.len() && flag_name(#[trigger] letters[i]) == Some(f) by {
            if before.contains(f) {
                let i = choose|i: int| 0 <= i < t.len() && flag_name(#[trigger] t[i]) == Some(f);
                assert(flag_name(letters[i]) == Some(f));
                let k = choose|k: int| 0 <= k < before.len() && before[k] == f;
                assert(flags_of(letters)[k] == f);
            }
            if flag_name(letters.last()) == Some(f) && !before.contains(f) {
                assert(flags_of(letters)[before.len() as int] == f);
                assert(flag_name(letters[letters.len() - 1]) == Some(f));
            }
            if flags_of(letters).contains(f) && !before.contains(f) {
                let k = choose|k: int| 0 <= k < flags_of(letters).len() && flags_of(letters)[k] == f;
                if k < before.len() {
                    assert(before[k] == f);
                }
                assert(flag_name(letters[letters.len() - 1]) == Some(f));
            }
            if (exists|i: int| 0 <= i < letters.len() && flag_name(#[trigger] letters[i]) == Some(f)) {
                let i = choose|i: int|
                    0 <= i < letters.len() && flag_name(#[trigger] letters[i]) == Some(f);
                if i < t.len() {
                    assert(flag_name(t[i]) == Some(f));
                }
            }
        }
    }
}

/// A message is a file in a directory of delivered mail, new or read, and in no other: what
/// lies in a directory of another name, such as one for mail in delivery, is none.
pub proof fn law_message_paths(dir: Seq<char>, sub: Seq<char>, n: Seq<char>)
    requires
        dir.len() > 0,
        crate::paths::is_plain_name(sub),
        crate::paths::is_plain_name(n),
    ensures
        message_path(path_joined(path_joined(dir, sub), n)) <==> sub == "cur"@ || sub == "new"@,
{
    let d = path_joined(dir, sub);
    crate::paths::law_joined_path(dir, sub, Seq::empty());
    assert(d.len() > 0);
    crate::paths::law_parent_of_joined(d, n);
}

/// The folder of a message is made of the directories between the root of the mail store and
/// the first directory of delivered mail, all of them and in their order; right below the root
/// it is the inbox.
pub proof fn law_folder(
    root: Seq<char>,
    path: Seq<char>,
    dirs: Seq<Seq<char>>,
    delivery: Seq<char>,
    rest: Seq<Seq<char>>,
)
    requires
        below(root, path) == dirs + seq![delivery] + rest,
        forall|i: int|
            0 <= i < dirs.len() ==> (#[trigger] dirs[i]) != "cur"@ && dirs[i] != "new"@ && dirs[i]
                != "tmp"@,
        delivery == "cur"@ || delivery == "new"@ || delivery == "tmp"@,
    ensures
        dirs.len() == 0 ==> folder(root, path) == "INBOX"@,
        dirs.len() > 0 ==> folder(root, path) == joined(dirs, "/"@),
{
    lemma_folder_parts(dirs, delivery, rest);
}

proof fn lemma_folder_parts(dirs: Seq<Seq<char>>, delivery: Seq<char>, rest: Seq<Seq<char>>)
    requires
        forall|i: int|
            0 <= i < dirs.len() ==> (#[trigger] dirs[i]) != "cur"@ && dirs[i] != "new"@ && dirs[i]
                != "tmp"@,
        delivery_dir(delivery),
    ensures
        folder_parts(dirs + seq![delivery] + rest) == dirs,
    decreases dirs.len(),
{
    let c = dirs + seq![delivery] + rest;
    if dirs.len() == 0 {
        assert(c[0] == delivery);
        assert(folder_parts(c) =~= dirs);
    } else {
        let t = dirs.skip(1);
        assert forall|i: int| 0 <= i < t.len() implies (#[trigger] t[i]) != "cur"@ && t[i]
            != "new"@ && t[i] != "tmp"@ by {
            assert(t[i] == dirs[i + 1]);
        }
        lemma_folder_parts(t, delivery, rest);
        assert(c[0] == dirs[0]);
        assert(c.skip(1) =~= t + seq![delivery] + rest);
        assert(folder_parts(c) =~= dirs);
    }
}

/// Each flag is written with the capital of the letter that its name begins with, and there is
/// no other.
pub proof fn law_flag_letters(c: char)
    ensures
        flag_name(c) is Some <==> (c == 'D' || c == 'F' || c == 'P' || c == 'R' || c == 'S' || c
            == 'T'),
        flag_name(c) matches Some(f) ==> f.len() > 0 && crate::text::ascii_lower(c) == f[0],
{
    reveal_strlit("seen");
    reveal_strlit("replied");
    reveal_strlit("flagged");
    reveal_strlit("draft");
    reveal_strlit("passed");
    reveal_strlit("trashed");
}

/// The flags come in the order in which their letters first stand in the file name.
pub proof fn law_flags_in_order(letters: Seq<char>, c: char)
    ensures
        flag_name(c) matches Some(f) ==> (if flags_of(letters).contains(f) {
            flags_of(letters.push(c)) == flags_of(letters)
        } else {
            flags_of(letters.push(c)) == flags_of(letters).push(f)
        }),
        flag_name(c) is None ==> flags_of(letters.push(c)) == flags_of(letters),
{
    assert(letters.push(c).drop_last() =~= letters);
}

/// The walk over a mail store never goes below mail in delivery, and keeps exactly the files of
/// delivered mail besides.
pub proof fn law_walk(path: Seq<char>, is_file: bool)
    ensures
        step_at(path, is_file) == WalkStep::Prune <==> file_name_of(path) == Some("tmp"@),
        step_at(path, is_file) == WalkStep::Keep <==> is_file && (parent_name_of(path) == Some(
            "cur"@,
        ) || parent_name_of(path) == Some("new"@)) && file_name_of(path) != Some("tmp"@),
{
}

}
