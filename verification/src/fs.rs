//! Files: which ones are walked over, and the documents made of them.
use crate::exclude::PathPattern;
use crate::model::{Action, Category, DocId, Document};
use crate::paths::file_name;
use crate::text::list_has;
use vstd::prelude::*;
use vstd::string::*;

verus! {

use crate::actions::{primary_plan, PlanView};
use crate::model::{ActionView, DocumentView};
use crate::paths::file_name_of;
use crate::text::views;

/// Where files are looked for, which are left out, and how large a file may be for its
/// content to be read.
pub struct FsSource {
    pub roots: Vec<String>,
    pub exclude: Vec<String>,
    pub exclude_regex: Vec<PathPattern>,
    pub max_file_size_mb: u64,
}

/// The largest size, in bytes, of a file whose content is read.
pub open spec fn size_limit(max_file_size_mb: u64) -> int {
    max_file_size_mb * 1024 * 1024
}

/// A number of seconds as stored, wrapped to a signed number.
pub open spec fn wrapped_secs(secs: u64) -> int {
    if secs <= i64::MAX {
        secs as int
    } else {
        secs - 0x1_0000_0000_0000_0000
    }
}

/// The modification time as stored: zero where there is none or where it lies before 1970.
pub open spec fn stored_mtime(secs: Option<u64>) -> int {
    match secs {
        Some(s) => wrapped_secs(s),
        None => 0,
    }
}

/// The modification time as stored, given the seconds since 1970, where there are any.
pub fn mtime_secs(secs: Option<u64>) -> (r: i64)
    ensures
        r == stored_mtime(secs),
{
    match secs {
        Some(s) => {
            assert(s <= 0x7fff_ffff_ffff_ffffu64 ==> (s as i64) as int == s as int) by (bit_vector);
            assert(s > 0x7fff_ffff_ffff_ffffu64 ==> (s as i64) as int == s as int
                - 0x1_0000_0000_0000_0000) by (bit_vector);
            #[verifier::truncate]
            (s as i64)
        },
        None => 0,
    }
}

/// What reading the content of a file gave: nothing was read, reading failed, or the text.
pub enum Content {
    NotRead,
    Failed,
    Text(String),
}

/// The body of a document: the text, unless it is empty.
pub open spec fn body_of(c: Content) -> Option<Seq<char>> {
    match c {
        Content::Text(t) => if t@.len() == 0 {
            None
        } else {
            Some(t@)
        },
        _ => None,
    }
}

/// The document of a file.
pub open spec fn file_document(path: Seq<char>, mtime: i64, size: u64, c: Content) -> DocumentView {
    DocumentView {
        id: "fs:"@ + path,
        category: Category::File,
        title: (match file_name_of(path) {
            Some(n) => n,
            None => Seq::empty(),
        }),
        subtitle: path,
        icon_name: None,
        kind_label: None,
        body: body_of(c),
        path,
        mtime,
        size,
        action: ActionView::OpenFile { path },
        extract_fail: c is Failed,
    }
}

impl FsSource {
    /// A source without expressions for paths to leave out.
    pub fn new(roots: Vec<String>, exclude: Vec<String>, max_file_size_mb: u64) -> (r: Self)
        ensures
            r.roots == roots,
            r.exclude == exclude,
            r.exclude_regex@.len() == 0,
            r.max_file_size_mb == max_file_size_mb,
    {
        FsSource { roots, exclude, exclude_regex: Vec::new(), max_file_size_mb }
    }

    /// A source with expressions for paths to leave out.
    pub fn with_regex(
        roots: Vec<String>,
        exclude: Vec<String>,
        exclude_regex: Vec<PathPattern>,
        max_file_size_mb: u64,
    ) -> (r: Self)
        ensures
            r.roots == roots,
            r.exclude == exclude,
            r.exclude_regex == exclude_regex,
            r.max_file_size_mb == max_file_size_mb,
    {
        FsSource { roots, exclude, exclude_regex, max_file_size_mb }
    }

    /// The name of the source.
    pub fn name(&self) -> (r: &'static str)
        ensures
            r@ == "filesystem"@,
    {
        "filesystem"
    }

    /// Whether a walk passes by files and directories of this name.
    pub fn should_exclude(&self, name: &str) -> (r: bool)
        ensures
            r == views(self.exclude@).contains(name@),
    {
        list_has(&self.exclude, name)
    }

    /// Whether the content of a file of this size is read.
    pub fn reads_content(&self, size: u64) -> (r: bool)
        requires
            size_limit(self.max_file_size_mb) <= u64::MAX,
        ensures
            r == (size <= size_limit(self.max_file_size_mb)),
    {
        let max: u64 = self.max_file_size_mb * 1024 * 1024;
        size <= max
    }

    /// The document of a file.
    pub fn document(path: &str, mtime: i64, size: u64, content: Content) -> (r: Document)
        ensures
            r@ == file_document(path@, mtime, size, content),
    {
        let title = match file_name(path) {
            Some(n) => n,
            None => String::new(),
        };
        let mut id = String::new();
        id.append("fs:");
        id.append(path);
        assert(id@ =~= "fs:"@ + path@);
        let (body, extract_fail): (Option<String>, bool) = match content {
            Content::Text(t) => {
                if t.as_str().is_empty() {
                    (None, false)
                } else {
                    (Some(t), false)
                }
            },
            Content::NotRead => (None, false),
            Content::Failed => (None, true),
        };
        let r = Document {
            id: DocId(id),
            category: Category::File,
            title,
            subtitle: path.to_owned(),
            icon_name: None,
            kind_label: None,
            body,
            path: path.to_owned(),
            mtime,
            size,
            action: Action::OpenFile { path: path.to_owned() },
            extract_fail,
        };
        assert(r@.title =~= file_document(path@, mtime, size, content).title);
        r
    }
}

// --- Laws ---

/// Opening the document of a file opens that file, by its whole path; the document shows the
/// path and its last part, and keeps what was read of the file.
pub proof fn law_file_document(path: Seq<char>, mtime: i64, size: u64, c: Content, is_dir: bool)
    ensures
        ({
            let d = file_document(path, mtime, size, c);
            &&& primary_plan(d.action, is_dir) matches PlanView::Run { program, args, dir }
            &&& program == "xdg-open"@ && args == seq![path] && dir is None
            &&& d.path == path && d.subtitle == path
            &&& d.category == Category::File
            &&& d.mtime == mtime && d.size == size
            &&& file_name_of(path) matches Some(n) ==> d.title == n
            &&& d.extract_fail <==> c is Failed
            &&& c matches Content::Text(t) ==> (t@.len() > 0 ==> d.body == Some(t@))
            &&& d.body is Some ==> c is Text && d.body->0.len() > 0
        }),
{
}

/// No two files have the same document, and its identifier gives the path back.
pub proof fn law_file_ids(
    p: Seq<char>,
    q: Seq<char>,
    mtime: i64,
    other_mtime: i64,
    size: u64,
    c: Content,
)
    ensures
        file_document(p, mtime, size, c).id == file_document(q, other_mtime, size, c).id <==> p
            == q,
        file_document(p, mtime, size, c).id == crate::watch::fs_id(p),
{
    let h = "fs:"@;
    assert((h + p).skip(h.len() as int) =~= p);
    assert((h + q).skip(h.len() as int) =~= q);
}

/// The time of a file is kept as it is, as far as it fits; distinct times stay distinct.
pub proof fn law_stored_times(a: u64, b: u64)
    ensures
        a <= i64::MAX ==> stored_mtime(Some(a)) == a,
        stored_mtime(Some(a)) == stored_mtime(Some(b)) <==> a == b,
        i64::MIN <= stored_mtime(Some(a)) <= i64::MAX,
        a < b <= i64::MAX ==> stored_mtime(Some(a)) < stored_mtime(Some(b)),
        stored_mtime(None) == 0,
{
}

/// The limit on the size of a file that is read is so many times a megabyte, of two to the
/// twentieth bytes; none is read where it is zero.
pub proof fn law_size_limit(m: u64, n: u64)
    ensures
        size_limit(0) == 0,
        size_limit(1) == 1_048_576,
        m < n ==> size_limit(m) + size_limit(1) <= size_limit(n),
        n == m + 1 ==> size_limit(n) == size_limit(m) + size_limit(1),
{
    assert(m < n ==> m * 1024 * 1024 + 1024 * 1024 <= n * 1024 * 1024) by (nonlinear_arith);
}

}
