//! Media types: the icons and the words that stand for them.
use crate::split::join;
use crate::text::{chars_of, char_is_alphanumeric, same, string_of, string_range};
use vstd::prelude::*;
use vstd::string::*;

verus! {

use crate::split::joined;
use crate::text::{is_alphanumeric, lemma_views_push, views};

/// The parts of a media type: all of it but its parameters, the type, and the subtype.
pub struct MimeType {
    pub essence: String,
    pub type_: String,
    pub subtype: String,
}

/// The parts of a text that `mime::Mime::from_str` reads as a media type: what
/// `essence_str`, `type_` and `subtype` give.
pub uninterp spec fn mime_parts(s: Seq<char>) -> Option<(Seq<char>, Seq<char>, Seq<char>)>;

/// What `char::to_uppercase` makes of a character.
pub uninterp spec fn uppercase_of(c: char) -> Seq<char>;

/// `mime::Mime::from_str` reads a media type, whose parts `essence_str`, `type_` and
/// `subtype` give. They depend on the text alone and only have a name here.
#[verifier::external_body]
fn read_mime(s: &str) -> (r: Option<MimeType>)
    ensures
        r is Some <==> mime_parts(s@) is Some,
        r matches Some(m) ==> mime_parts(s@) == Some((m.essence@, m.type_@, m.subtype@)),
{
    let m: mime_guess::Mime = s.parse().ok()?;
    Some(MimeType {
        essence: m.essence_str().to_owned(),
        type_: m.type_().as_str().to_owned(),
        subtype: m.subtype().as_str().to_owned(),
    })
}

/// `char::to_uppercase` maps a character to upper case by the rules of Unicode. On ASCII it
/// changes the small letters alone; its result on other characters only has a name here.
#[verifier::external_body]
fn uppercase(c: char) -> (r: String)
    ensures
        r@ == uppercase_of(c),
        (c as u32) < 128 ==> r@ == seq![ascii_upper(c)],
{
    c.to_uppercase().collect()
}

/// An ASCII small letter as a capital one; any other character as it is.
pub open spec fn ascii_upper(c: char) -> char {
    if 'a' <= c <= 'z' {
        ((c as u32) - 32) as char
    } else {
        c
    }
}

impl MimeType {
    /// The parts of a media type, where the text is one.
    pub fn parse(s: &str) -> (r: Option<MimeType>)
        ensures
            r is Some <==> mime_parts(s@) is Some,
            r matches Some(m) ==> mime_parts(s@) == Some((m.essence@, m.type_@, m.subtype@)),
    {
        read_mime(s)
    }
}

/// The name of the icon for a media type.
pub open spec fn icon_of(essence: Seq<char>, kind: Seq<char>) -> Seq<char> {
    if essence == "application/pdf"@ {
        "application-pdf"@
    } else if essence == "text/plain"@ {
        "text-plain"@
    } else if essence == "text/markdown"@ || essence == "text/x-markdown"@ {
        "text-x-markdown"@
    } else if essence == "application/zip"@ || essence == "application/x-tar"@ || essence
        == "application/x-gzip"@ {
        "package-x-generic"@
    } else if essence == "inode/directory"@ {
        "folder"@
    } else if kind == "image"@ {
        "image-x-generic"@
    } else if kind == "video"@ {
        "video-x-generic"@
    } else if kind == "audio"@ {
        "audio-x-generic"@
    } else {
        "text-x-generic"@
    }
}

/// The name of the icon for a media type.
pub fn mime_to_icon_name(mime: &MimeType) -> (r: String)
    ensures
        r@ == icon_of(mime.essence@, mime.type_@),
{
    let e = mime.essence.as_str();
    let t = mime.type_.as_str();
    let name = if same(e, "application/pdf") {
        "application-pdf"
    } else if same(e, "text/plain") {
        "text-plain"
    } else if same(e, "text/markdown") || same(e, "text/x-markdown") {
        "text-x-markdown"
    } else if same(e, "application/zip") || same(e, "application/x-tar") || same(
        e,
        "application/x-gzip",
    ) {
        "package-x-generic"
    } else if same(e, "inode/directory") {
        "folder"
    } else if same(t, "image") {
        "image-x-generic"
    } else if same(t, "video") {
        "video-x-generic"
    } else if same(t, "audio") {
        "audio-x-generic"
    } else {
        "text-x-generic"
    };
    name.to_owned()
}

/// The words for a media type.
pub open spec fn kind_of(essence: Seq<char>, kind: Seq<char>, subtype: Seq<char>) -> Seq<char> {
    if essence == "application/pdf"@ {
        "PDF Document"@
    } else if essence == "text/plain"@ {
        "Text"@
    } else if essence == "text/markdown"@ || essence == "text/x-markdown"@ {
        "Markdown"@
    } else if essence == "application/json"@ {
        "JSON"@
    } else if essence == "application/zip"@ || essence == "application/x-tar"@ || essence
        == "application/x-gzip"@ {
        "Archive"@
    } else if essence == "inode/directory"@ {
        "Folder"@
    } else if kind == "image"@ {
        "Image"@
    } else if kind == "video"@ {
        "Video"@
    } else if kind == "audio"@ {
        "Audio"@
    } else {
        title_of(subtype)
    }
}

/// The words for a media type.
pub fn human_kind(mime: &MimeType) -> (r: String)
    ensures
        r@ == kind_of(mime.essence@, mime.type_@, mime.subtype@),
{
    let e = mime.essence.as_str();
    let t = mime.type_.as_str();
    if same(e, "application/pdf") {
        "PDF Document".to_owned()
    } else if same(e, "text/plain") {
        "Text".to_owned()
    } else if same(e, "text/markdown") || same(e, "text/x-markdown") {
        "Markdown".to_owned()
    } else if same(e, "application/json") {
        "JSON".to_owned()
    } else if same(e, "application/zip") || same(e, "application/x-tar") || same(
        e,
        "application/x-gzip",
    ) {
        "Archive".to_owned()
    } else if same(e, "inode/directory") {
        "Folder".to_owned()
    } else if same(t, "image") {
        "Image".to_owned()
    } else if same(t, "video") {
        "Video".to_owned()
    } else if same(t, "audio") {
        "Audio".to_owned()
    } else {
        titleize_subtype(mime.subtype.as_str())
    }
}

/// A word with its first character in upper case.
pub open spec fn capitalized(w: Seq<char>) -> Seq<char> {
    if w.len() == 0 {
        w
    } else {
        uppercase_of(w[0]) + w.skip(1)
    }
}

/// A word of ASCII letters and digits with its first one in upper case.
pub open spec fn ascii_capitalized(w: Seq<char>) -> Seq<char> {
    if w.len() == 0 {
        w
    } else {
        seq![ascii_upper(w[0])] + w.skip(1)
    }
}

/// The runs of ASCII letters and digits completed in `s`, and the one that `s` ends in.
pub open spec fn runs_so_far(s: Seq<char>) -> (Seq<Seq<char>>, Seq<char>)
    decreases s.len(),
{
    if s.len() == 0 {
        (Seq::empty(), Seq::empty())
    } else {
        let (done, cur) = runs_so_far(s.drop_last());
        if is_alphanumeric(s.last()) {
            (done, cur.push(s.last()))
        } else if cur.len() > 0 {
            (done.push(cur), Seq::empty())
        } else {
            (done, cur)
        }
    }
}

/// The runs of ASCII letters and digits in `s`.
pub open spec fn runs_of(s: Seq<char>) -> Seq<Seq<char>> {
    let (done, cur) = runs_so_far(s);
    if cur.len() > 0 {
        done.push(cur)
    } else {
        done
    }
}

/// The words, each with its first character in upper case.
pub open spec fn capitalized_all(w: Seq<Seq<char>>) -> Seq<Seq<char>> {
    Seq::new(w.len(), |i: int| ascii_capitalized(w[i]))
}

/// A subtype as a title: its runs of ASCII letters and digits as words.
pub open spec fn title_of(subtype: Seq<char>) -> Seq<char> {
    let w = runs_of(subtype);
    if w.len() == 0 {
        "Unknown"@
    } else {
        joined(capitalized_all(w), " "@)
    }
}

/// A word with its first character in upper case.
pub fn capitalize(word: &str) -> (r: String)
    ensures
        r@ == capitalized(word@),
        word@.len() > 0 && (word@[0] as u32) < 128 ==> r@ == ascii_capitalized(word@),
{
    let cs = chars_of(word);
    if cs.len() == 0 {
        let r = String::new();
        assert(r@ =~= word@);
        return r;
    }
    let mut out = uppercase(cs[0]);
    let rest = string_range(&cs, 1, cs.len());
    assert(rest@ =~= word@.skip(1));
    out.append(rest.as_str());
    out
}

/// Adds a run as a word.
fn push_word(words: &mut Vec<String>, run: &Vec<char>)
    requires
        run@.len() > 0,
        is_alphanumeric(run@[0]),
    ensures
        views(final(words)@) == views(old(words)@).push(ascii_capitalized(run@)),
{
    let w = capitalize(string_of(run).as_str());
    let ghost before = words@;
    words.push(w);
    proof {
        lemma_views_push(before, words@.last());
    }
}

/// A subtype as a title.
pub fn titleize_subtype(subtype: &str) -> (r: String)
    ensures
        r@ == title_of(subtype@),
{
    let cs = chars_of(subtype);
    let mut words: Vec<String> = Vec::new();
    let mut current: Vec<char> = Vec::new();
    let mut i: usize = 0;
    assert(cs@.take(0) =~= Seq::<char>::empty());
    while i < cs.len()
        invariant
            i <= cs@.len(),
            cs@ == subtype@,
            views(words@) =~= capitalized_all(runs_so_far(cs@.take(i as int)).0),
            current@ =~= runs_so_far(cs@.take(i as int)).1,
            current@.len() > 0 ==> is_alphanumeric(current@[0]),
        decreases cs.len() - i,
    {
        let ch = cs[i];
        proof {
            assert(cs@.take(i + 1).drop_last() =~= cs@.take(i as int));
            assert(cs@.take(i + 1).last() == ch);
        }
        if char_is_alphanumeric(ch) {
            current.push(ch);
        } else if current.len() > 0 {
            let ghost done = runs_so_far(cs@.take(i as int)).0;
            push_word(&mut words, &current);
            assert(capitalized_all(done.push(current@)) =~= capitalized_all(done).push(
                ascii_capitalized(current@),
            ));
            current = Vec::new();
        }
        i = i + 1;
    }
    assert(cs@.take(i as int) =~= subtype@);
    if current.len() > 0 {
        let ghost done = runs_so_far(subtype@).0;
        push_word(&mut words, &current);
        assert(capitalized_all(done.push(current@)) =~= capitalized_all(done).push(
            ascii_capitalized(current@),
        ));
    }
    if words.len() == 0 {
        "Unknown".to_owned()
    } else {
        join(&words, " ")
    }
}

// --- Laws ---

/// Pictures, films and sound have the icon and the kind of their class, whatever their format.
pub proof fn law_media(essence: Seq<char>, kind: Seq<char>, a: Seq<char>, b: Seq<char>)
    requires
        essence == kind + seq!['/'] + a,
        kind == "image"@ || kind == "video"@ || kind == "audio"@,
    ensures
        icon_of(essence, kind) == kind + "-x-generic"@,
        kind_of(essence, kind, a) == kind_of(essence, kind, b),
        kind_of(essence, kind, a) == ascii_capitalized(kind),
{
    reveal_strlit("image");
    reveal_strlit("video");
    reveal_strlit("audio");
    reveal_strlit("application/pdf");
    reveal_strlit("text/plain");
    reveal_strlit("text/markdown");
    reveal_strlit("text/x-markdown");
    reveal_strlit("application/json");
    reveal_strlit("application/zip");
    reveal_strlit("application/x-tar");
    reveal_strlit("application/x-gzip");
    reveal_strlit("inode/directory");
    reveal_strlit("-x-generic");
    reveal_strlit("image-x-generic");
    reveal_strlit("video-x-generic");
    reveal_strlit("audio-x-generic");
    reveal_strlit("Image");
    reveal_strlit("Video");
    reveal_strlit("Audio");
    assert(essence[1] == kind[1]);
    assert(kind[1] == 'm' || kind[1] == 'i' || kind[1] == 'u');
    assert("application/pdf"@[1] == 'p');
    assert("text/plain"@[1] == 'e');
    assert("text/markdown"@[1] == 'e');
    assert("text/x-markdown"@[1] == 'e');
    assert("application/json"@[1] == 'p');
    assert("application/zip"@[1] == 'p');
    assert("application/x-tar"@[1] == 'p');
    assert("application/x-gzip"@[1] == 'p');
    assert("inode/directory"@[1] == 'n');
    assert("image"@[0] == 'i' && "video"@[0] == 'v' && "audio"@[0] == 'a');
    if kind == "image"@ {
        assert("image-x-generic"@ =~= kind + "-x-generic"@);
        assert("Image"@ =~= ascii_capitalized(kind));
    } else if kind == "video"@ {
        assert("video-x-generic"@ =~= kind + "-x-generic"@);
        assert("Video"@ =~= ascii_capitalized(kind));
    } else {
        assert("audio-x-generic"@ =~= kind + "-x-generic"@);
        assert("Audio"@ =~= ascii_capitalized(kind));
    }
}

/// A run of ASCII letters and digits.
pub open spec fn is_run(w: Seq<char>) -> bool {
    w.len() > 0 && forall|j: int| 0 <= j < w.len() ==> is_alphanumeric(#[trigger] w[j])
}

/// The runs of two texts with a mark between them are the runs of the one, then those of the
/// other; a text of letters and digits is one run.
pub proof fn law_runs(a: Seq<char>, c: char, b: Seq<char>)
    requires
        !is_alphanumeric(c),
    ensures
        runs_of(a + seq![c] + b) == runs_of(a) + runs_of(b),
        is_run(a) ==> runs_of(a) == seq![a],
        runs_of(Seq::empty()).len() == 0,
{
    lemma_runs_between(a, c, b);
    lemma_one_run(a);
    assert(runs_of(a + seq![c] + b) =~= runs_of(a) + runs_of(b));
}

proof fn lemma_runs_between(a: Seq<char>, c: char, b: Seq<char>)
    requires
        !is_alphanumeric(c),
    ensures
        runs_so_far(a + seq![c] + b).0 == runs_of(a) + runs_so_far(b).0,
        runs_so_far(a + seq![c] + b).1 == runs_so_far(b).1,
    decreases b.len(),
{
    let s = a + seq![c] + b;
    if b.len() == 0 {
        assert(s.drop_last() =~= a);
        assert(s.last() == c);
        assert(runs_so_far(s).0 =~= runs_of(a) + runs_so_far(b).0);
        assert(runs_so_far(s).1 =~= runs_so_far(b).1);
    } else {
        lemma_runs_between(a, c, b.drop_last());
        assert(s.drop_last() =~= a + seq![c] + b.drop_last());
        assert(s.last() == b.last());
        assert(runs_so_far(s).0 =~= runs_of(a) + runs_so_far(b).0);
    }
}

proof fn lemma_one_run(a: Seq<char>)
    ensures
        is_run(a) ==> runs_so_far(a).0.len() == 0 && runs_so_far(a).1 == a && runs_of(a) == seq![a],
    decreases a.len(),
{
    if is_run(a) {
        let t = a.drop_last();
        assert(is_alphanumeric(a.last()));
        assert(t.push(a.last()) =~= a);
        if t.len() > 0 {
            assert forall|j: int| 0 <= j < t.len() implies is_alphanumeric(#[trigger] t[j]) by {
                assert(t[j] == a[j]);
            }
            lemma_one_run(t);
        } else {
            assert(runs_so_far(t).1 =~= t);
        }
        assert(runs_so_far(a).1 == a);
        assert(runs_of(a) =~= seq![a]);
    }
}

/// The title of a format that has no name of its own is its subtype, word by word, each with a
/// capital letter and a space between them; marks go, and without any word it is unknown.
pub proof fn law_titles(a: Seq<char>, c: char, b: Seq<char>)
    requires
        is_run(a),
        !is_alphanumeric(c),
    ensures
        title_of(a) == ascii_capitalized(a),
        runs_of(b).len() > 0 ==> title_of(a + seq![c] + b) == ascii_capitalized(a) + " "@
            + title_of(b),
        runs_of(b).len() == 0 ==> title_of(a + seq![c] + b) == title_of(a),
        title_of(Seq::empty()) == "Unknown"@,
        title_of(seq![c]) == "Unknown"@,
{
    law_runs(a, c, b);
    law_runs(Seq::empty(), c, Seq::empty());
    assert(Seq::<char>::empty() + seq![c] + Seq::<char>::empty() =~= seq![c]);
    let x = seq![ascii_capitalized(a)];
    assert(capitalized_all(seq![a]) =~= x);
    assert(joined(x, " "@) == x[0]);
    if runs_of(b).len() > 0 {
        let y = capitalized_all(runs_of(b));
        assert(capitalized_all(seq![a] + runs_of(b)) =~= x + y);
        crate::split::law_joined(x, y, " "@);
    } else {
        assert(seq![a] + runs_of(b) =~= seq![a]);
    }
}

/// Capitalizing changes the first letter of a word alone.
pub proof fn law_capitalized(w: Seq<char>)
    requires
        w.len() > 0,
    ensures
        ascii_capitalized(w).len() == w.len(),
        ascii_capitalized(w).skip(1) == w.skip(1),
        crate::text::ascii_lower(ascii_capitalized(w)[0]) == crate::text::ascii_lower(w[0]),
        !('a' <= ascii_capitalized(w)[0] <= 'z'),
{
    assert(ascii_capitalized(w).skip(1) =~= w.skip(1));
}

/// Formats that are named by themselves have the same icon and kind whatever class and subtype
/// they are given with, and archives are alike, as are the two ways to name Markdown.
pub proof fn law_named_formats(kind: Seq<char>, subtype: Seq<char>, k: Seq<char>, s: Seq<char>)
    ensures
        icon_of("application/zip"@, kind) == icon_of("application/x-tar"@, k),
        icon_of("application/zip"@, kind) == icon_of("application/x-gzip"@, k),
        icon_of("application/zip"@, kind) == "package-x-generic"@,
        kind_of("application/zip"@, kind, subtype) == "Archive"@,
        kind_of("application/x-tar"@, kind, subtype) == kind_of("application/zip"@, k, s),
        kind_of("application/x-gzip"@, kind, subtype) == kind_of("application/zip"@, k, s),
        icon_of("text/markdown"@, kind) == icon_of("text/x-markdown"@, k),
        icon_of("text/markdown"@, kind) == "text-x-markdown"@,
        kind_of("text/markdown"@, kind, subtype) == kind_of("text/x-markdown"@, k, s),
        kind_of("text/markdown"@, kind, subtype) == "Markdown"@,
        icon_of("application/pdf"@, kind) == "application-pdf"@,
        kind_of("application/pdf"@, kind, subtype) == "PDF Document"@,
        icon_of("text/plain"@, kind) == "text-plain"@,
        kind_of("text/plain"@, kind, subtype) == "Text"@,
        icon_of("inode/directory"@, kind) == "folder"@,
        kind_of("inode/directory"@, kind, subtype) == "Folder"@,
        kind_of("application/json"@, kind, subtype) == "JSON"@,
{
    reveal_strlit("application/pdf");
    reveal_strlit("text/plain");
    reveal_strlit("text/markdown");
    reveal_strlit("text/x-markdown");
    reveal_strlit("application/json");
    reveal_strlit("application/zip");
    reveal_strlit("application/x-tar");
    reveal_strlit("application/x-gzip");
    reveal_strlit("inode/directory");
    assert("application/pdf"@.len() == 15 && "application/pdf"@[12] == 'p');
    assert("application/zip"@.len() == 15 && "application/zip"@[12] == 'z');
    assert("inode/directory"@.len() == 15 && "inode/directory"@[12] == 'o');
    assert("text/x-markdown"@.len() == 15 && "text/x-markdown"@[12] == 'o');
    assert("text/x-markdown"@[0] == 't' && "inode/directory"@[0] == 'i');
    assert("application/json"@.len() == 16);
    assert("application/x-tar"@.len() == 17 && "application/x-gzip"@.len() == 18);
    assert("text/plain"@.len() == 10 && "text/markdown"@.len() == 13);
}

/// A format of any other class that has no name of its own is shown as text, by its subtype.
pub proof fn law_other_formats(essence: Seq<char>, kind: Seq<char>, subtype: Seq<char>)
    requires
        kind != "image"@ && kind != "video"@ && kind != "audio"@,
        essence != "application/pdf"@ && essence != "text/plain"@ && essence != "text/markdown"@
            && essence != "text/x-markdown"@ && essence != "application/zip"@ && essence
            != "application/x-tar"@ && essence != "application/x-gzip"@ && essence
            != "inode/directory"@,
    ensures
        icon_of(essence, kind) == "text-x-generic"@,
        essence != "application/json"@ ==> kind_of(essence, kind, subtype) == title_of(subtype),
{
}

}
