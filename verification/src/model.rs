//! The types that the parts of the search share.
use crate::text::clone_opt;
use vstd::prelude::*;
use vstd::string::*;

verus! {

use crate::text::opt_view;

/// Categories of searchable items.
#[derive(Debug, Clone, Copy, PartialEq, Eq, Hash, Structural)]
pub enum Category {
    App,
    File,
    Mail,
    Attachment,
}

/// The name of a category in stored documents.
pub open spec fn category_text(c: Category) -> Seq<char> {
    match c {
        Category::App => "app"@,
        Category::File => "file"@,
        Category::Mail => "mail"@,
        Category::Attachment => "attachment"@,
    }
}

impl Category {
    /// The name of the category in stored documents.
    pub fn as_str(&self) -> (r: &'static str)
        ensures
            r@ == category_text(*self),
    {
        match self {
            Category::App => "app",
            Category::File => "file",
            Category::Mail => "mail",
            Category::Attachment => "attachment",
        }
    }
}

/// No two categories have the same name.
pub proof fn law_category_names_distinct(a: Category, b: Category)
    ensures
        category_text(a) == category_text(b) ==> a == b,
{
    reveal_strlit("app");
    reveal_strlit("file");
    reveal_strlit("mail");
    reveal_strlit("attachment");
    assert("app"@.len() == 3 && "file"@.len() == 4 && "mail"@.len() == 4 && "attachment"@.len()
        == 10);
    assert("file"@[0] == 'f' && "mail"@[0] == 'm');
}

/// The identifier of a document, the same in every run:
/// `fs:<abspath>`, `app:<desktop-id>`, `mail:<gloda-id>` or `att:<mail-id>#<n>`.
#[derive(Debug, PartialEq, Eq, Hash)]
pub struct DocId(pub String);

impl Clone for DocId {
    fn clone(&self) -> (r: Self)
        ensures
            r == *self,
    {
        DocId(self.0.clone())
    }
}

/// What to do with a hit.
#[derive(Debug)]
pub enum Action {
    /// Launch an application.
    Launch { command: String, terminal: bool, working_dir: Option<String> },
    /// Open a file with the default handler.
    OpenFile { path: String },
    /// Show a file in the file manager.
    ShowInFileManager { path: String },
    /// Open a mail message in Thunderbird.
    OpenMail { message_id: String },
    /// Extract an attachment to a temporary file and open it.
    OpenAttachment {
        mbox_path: String,
        byte_offset: u64,
        length: u64,
        mime: String,
        encoding: String,
        suggested_filename: String,
    },
    /// Open the mail that an attachment belongs to.
    OpenParentMail { message_id: String },
    /// Put a text in place of the query.
    ReplaceQuery { q: String },
}

impl Clone for Action {
    fn clone(&self) -> (r: Self)
        ensures
            r == *self,
    {
        match self {
            Action::Launch { command, terminal, working_dir } => Action::Launch {
                command: command.clone(),
                terminal: *terminal,
                working_dir: clone_opt(working_dir),
            },
            Action::OpenFile { path } => Action::OpenFile { path: path.clone() },
            Action::ShowInFileManager { path } => Action::ShowInFileManager { path: path.clone() },
            Action::OpenMail { message_id } => Action::OpenMail { message_id: message_id.clone() },
            Action::OpenAttachment {
                mbox_path,
                byte_offset,
                length,
                mime,
                encoding,
                suggested_filename,
            } => Action::OpenAttachment {
                mbox_path: mbox_path.clone(),
                byte_offset: *byte_offset,
                length: *length,
                mime: mime.clone(),
                encoding: encoding.clone(),
                suggested_filename: suggested_filename.clone(),
            },
            Action::OpenParentMail { message_id } => Action::OpenParentMail {
                message_id: message_id.clone(),
            },
            Action::ReplaceQuery { q } => Action::ReplaceQuery { q: q.clone() },
        }
    }
}

/// What an action holds.
pub enum ActionView {
    Launch { command: Seq<char>, terminal: bool, working_dir: Option<Seq<char>> },
    OpenFile { path: Seq<char> },
    ShowInFileManager { path: Seq<char> },
    OpenMail { message_id: Seq<char> },
    OpenAttachment {
        mbox_path: Seq<char>,
        byte_offset: u64,
        length: u64,
        mime: Seq<char>,
        encoding: Seq<char>,
        suggested_filename: Seq<char>,
    },
    OpenParentMail { message_id: Seq<char> },
    ReplaceQuery { q: Seq<char> },
}

impl View for Action {
    type V = ActionView;

    open spec fn view(&self) -> ActionView {
        match self {
            Action::Launch { command, terminal, working_dir } => ActionView::Launch {
                command: command@,
                terminal: *terminal,
                working_dir: opt_view(*working_dir),
            },
            Action::OpenFile { path } => ActionView::OpenFile { path: path@ },
            Action::ShowInFileManager { path } => ActionView::ShowInFileManager { path: path@ },
            Action::OpenMail { message_id } => ActionView::OpenMail { message_id: message_id@ },
            Action::OpenAttachment {
                mbox_path,
                byte_offset,
                length,
                mime,
                encoding,
                suggested_filename,
            } => ActionView::OpenAttachment {
                mbox_path: mbox_path@,
                byte_offset: *byte_offset,
                length: *length,
                mime: mime@,
                encoding: encoding@,
                suggested_filename: suggested_filename@,
            },
            Action::OpenParentMail { message_id } => ActionView::OpenParentMail {
                message_id: message_id@,
            },
            Action::ReplaceQuery { q } => ActionView::ReplaceQuery { q: q@ },
        }
    }
}

/// A search result, with a score of type `S`.
#[derive(Debug)]
pub struct Hit<S> {
    pub id: DocId,
    pub category: Category,
    pub title: String,
    pub subtitle: String,
    pub icon_name: Option<String>,
    pub kind_label: Option<String>,
    pub score: S,
    pub action: Action,
    pub extract_fail: bool,
}

impl<S: Copy> Clone for Hit<S> {
    fn clone(&self) -> (r: Self)
        ensures
            r == *self,
    {
        Hit {
            id: self.id.clone(),
            category: self.category,
            title: self.title.clone(),
            subtitle: self.subtitle.clone(),
            icon_name: clone_opt(&self.icon_name),
            kind_label: clone_opt(&self.kind_label),
            score: self.score,
            action: self.action.clone(),
            extract_fail: self.extract_fail,
        }
    }
}

/// What a search result holds.
pub struct HitView<S> {
    pub id: Seq<char>,
    pub category: Category,
    pub title: Seq<char>,
    pub subtitle: Seq<char>,
    pub icon_name: Option<Seq<char>>,
    pub kind_label: Option<Seq<char>>,
    pub score: S,
    pub action: ActionView,
    pub extract_fail: bool,
}

impl<S> View for Hit<S> {
    type V = HitView<S>;

    open spec fn view(&self) -> HitView<S> {
        HitView {
            id: self.id.0@,
            category: self.category,
            title: self.title@,
            subtitle: self.subtitle@,
            icon_name: opt_view(self.icon_name),
            kind_label: opt_view(self.kind_label),
            score: self.score,
            action: self.action@,
            extract_fail: self.extract_fail,
        }
    }
}

/// A copy of a list of search results.
pub fn clone_hits<S: Copy>(v: &Vec<Hit<S>>) -> (r: Vec<Hit<S>>)
    ensures
        r@ == v@,
{
    let mut out: Vec<Hit<S>> = Vec::new();
    for i in 0..v.len()
        invariant
            out@.len() == i,
            forall|j: int| 0 <= j < i ==> out@[j] == v@[j],
    {
        out.push(v[i].clone());
    }
    assert(out@ =~= v@);
    out
}

/// A document to be indexed.
#[derive(Debug)]
pub struct Document {
    pub id: DocId,
    pub category: Category,
    pub title: String,
    pub subtitle: String,
    pub icon_name: Option<String>,
    pub kind_label: Option<String>,
    pub body: Option<String>,
    pub path: String,
    pub mtime: i64,
    pub size: u64,
    pub action: Action,
    pub extract_fail: bool,
}

impl Clone for Document {
    fn clone(&self) -> (r: Self)
        ensures
            r == *self,
    {
        Document {
            id: self.id.clone(),
            category: self.category,
            title: self.title.clone(),
            subtitle: self.subtitle.clone(),
            icon_name: clone_opt(&self.icon_name),
            kind_label: clone_opt(&self.kind_label),
            body: clone_opt(&self.body),
            path: self.path.clone(),
            mtime: self.mtime,
            size: self.size,
            action: self.action.clone(),
            extract_fail: self.extract_fail,
        }
    }
}

/// What a document holds.
pub struct DocumentView {
    pub id: Seq<char>,
    pub category: Category,
    pub title: Seq<char>,
    pub subtitle: Seq<char>,
    pub icon_name: Option<Seq<char>>,
    pub kind_label: Option<Seq<char>>,
    pub body: Option<Seq<char>>,
    pub path: Seq<char>,
    pub mtime: i64,
    pub size: u64,
    pub action: ActionView,
    pub extract_fail: bool,
}

impl View for Document {
    type V = DocumentView;

    open spec fn view(&self) -> DocumentView {
        DocumentView {
            id: self.id.0@,
            category: self.category,
            title: self.title@,
            subtitle: self.subtitle@,
            icon_name: opt_view(self.icon_name),
            kind_label: opt_view(self.kind_label),
            body: opt_view(self.body),
            path: self.path@,
            mtime: self.mtime,
            size: self.size,
            action: self.action@,
            extract_fail: self.extract_fail,
        }
    }
}

/// What the documents of a list hold.
pub open spec fn document_views(v: Seq<Document>) -> Seq<DocumentView> {
    Seq::new(v.len(), |i: int| v[i]@)
}

/// A search query.
#[derive(Debug)]
pub struct Query {
    pub text: String,
    pub limit: u32,
}

impl Clone for Query {
    fn clone(&self) -> (r: Self)
        ensures
            r == *self,
    {
        Query { text: self.text.clone(), limit: self.limit }
    }
}

}
