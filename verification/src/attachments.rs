//! Attachments in the mailboxes of Thunderbird.
use crate::decimal::push_decimal;
use crate::model::{Action, Category, DocId, Document};
use crate::paths::{extension, path_join};
use crate::text::{begins, ends};
use crate::transfer::decode_attachment;
use vstd::prelude::*;
use vstd::slice::{slice_subrange, slice_to_vec};
use vstd::string::*;

verus! {

use crate::actions::{primary_plan, PlanView};
use crate::decimal::decimal;
use crate::model::{ActionView, DocumentView};
use crate::paths::{extension_of, path_joined};
use crate::text::{ends_with, opt_view, starts_with, views};
use crate::transfer::attachment_content;

/// A Thunderbird profile, and the largest attachment whose content is read.
pub struct ThunderbirdAttachmentsSource {
    pub profile_path: String,
    pub max_attachment_bytes: u64,
}

/// A part of a message in a mailbox.
pub struct MboxPart {
    pub mbox_path: String,
    pub message_id: Option<String>,
    pub subject: Option<String>,
    pub part_index: u64,
    pub part_body_byte_offset: u64,
    pub part_body_length: u64,
    pub filename: String,
    pub mime: String,
    pub encoding: String,
}

/// What reading the content of an attachment gave.
pub enum PartContent {
    /// It could not be decoded or read.
    Failed,
    /// Its text.
    Text(String),
}

/// The document of an attachment.
pub open spec fn part_document(
    part: MboxPart,
    message: Seq<char>,
    body: Option<Seq<char>>,
    fail: bool,
) -> DocumentView {
    DocumentView {
        id: "att:"@ + message + "#"@ + decimal(part.part_index as nat),
        category: Category::Attachment,
        title: part.filename@,
        subtitle: (match part.subject {
            Some(s) => s@,
            None => "(no subject)"@,
        }),
        icon_name: None,
        kind_label: None,
        body,
        path: part.mbox_path@,
        mtime: 0,
        size: part.part_body_length,
        action: ActionView::OpenAttachment {
            mbox_path: part.mbox_path@,
            byte_offset: part.part_body_byte_offset,
            length: part.part_body_length,
            mime: part.mime@,
            encoding: part.encoding@,
            suggested_filename: part.filename@,
        },
        extract_fail: fail,
    }
}

/// The body that the content of an attachment gives: its text, unless it is empty.
pub open spec fn part_body(c: Option<PartContent>) -> Option<Seq<char>> {
    match c {
        Some(PartContent::Text(t)) => if t@.len() > 0 {
            Some(t@)
        } else {
            None
        },
        _ => None,
    }
}

/// A part with what reading it gave. `fallback` stands for the message where it has no
/// identifier; `content` is `None` where the content was not read.
pub struct ReadPart {
    pub part: MboxPart,
    pub fallback: String,
    pub content: Option<PartContent>,
}

/// The document of a part that was read.
pub open spec fn read_document(p: ReadPart) -> DocumentView {
    part_document(
        p.part,
        (match p.part.message_id {
            Some(m) => m@,
            None => p.fallback@,
        }),
        part_body(p.content),
        !(p.content matches Some(PartContent::Text(_))),
    )
}

/// The content of a part of a mailbox, where it is not above the limit, lies within the
/// mailbox and can be decoded.
pub open spec fn content_of(part: MboxPart, limit: u64, mbox: Seq<u8>) -> Option<Seq<u8>> {
    let start = part.part_body_byte_offset as int;
    let end = start + part.part_body_length;
    if part.part_body_length > limit || end > mbox.len() {
        None
    } else {
        attachment_content(mbox.subrange(start, end), part.encoding@)
    }
}

/// Whether a file of this name is a mailbox: neither a mail index nor a hidden file.
pub open spec fn mailbox_name(name: Seq<char>) -> bool {
    !(ends_with(name, ".msf"@) || starts_with(name, "."@))
}

impl ThunderbirdAttachmentsSource {
    /// A source for the attachments in the mailboxes of a profile.
    pub fn new(profile_path: String, max_attachment_bytes: u64) -> (r: Self)
        ensures
            r.profile_path == profile_path,
            r.max_attachment_bytes == max_attachment_bytes,
    {
        ThunderbirdAttachmentsSource { profile_path, max_attachment_bytes }
    }

    /// The name of the source.
    pub fn name(&self) -> (r: &'static str)
        ensures
            r@ == "thunderbird_attachments"@,
    {
        "thunderbird_attachments"
    }

    /// The directories that hold mailboxes.
    pub fn mail_dirs(&self) -> (r: Vec<String>)
        ensures
            views(r@) == seq![
                path_joined(self.profile_path@, "Mail"@),
                path_joined(self.profile_path@, "ImapMail"@),
            ],
    {
        let mut v: Vec<String> = Vec::new();
        v.push(path_join(self.profile_path.as_str(), "Mail"));
        v.push(path_join(self.profile_path.as_str(), "ImapMail"));
        assert(views(v@) =~= seq![
            path_joined(self.profile_path@, "Mail"@),
            path_joined(self.profile_path@, "ImapMail"@),
        ]);
        v
    }

    /// Whether a file of this name is a mailbox.
    pub fn is_mailbox(name: &str) -> (r: bool)
        ensures
            r == mailbox_name(name@),
    {
        !(ends(name, ".msf") || begins(name, "."))
    }

    /// Where the content of an attachment lies in a mailbox of the given size; `None` where
    /// it is too large to be read or does not lie within the mailbox.
    pub fn part_range(&self, part: &MboxPart, mbox_len: usize) -> (r: Option<(usize, usize)>)
        requires
            part.part_body_length <= self.max_attachment_bytes ==> part.part_body_byte_offset
                + part.part_body_length <= usize::MAX,
        ensures
            r == (if part.part_body_length > self.max_attachment_bytes
                || part.part_body_byte_offset + part.part_body_length > mbox_len {
                None
            } else {
                Some(
                    (
                        part.part_body_byte_offset as usize,
                        (part.part_body_byte_offset + part.part_body_length) as usize,
                    ),
                )
            }),
    {
        if part.part_body_length > self.max_attachment_bytes {
            return None;
        }
        let start: usize = part.part_body_byte_offset as usize;
        let end: usize = start + part.part_body_length as usize;
        if end > mbox_len {
            None
        } else {
            Some((start, end))
        }
    }

    /// The content of an attachment in a mailbox; `None` where it is too large to be read, does
    /// not lie within the mailbox or cannot be decoded.
    pub fn part_content(&self, part: &MboxPart, mbox: &Vec<u8>) -> (r: Option<Vec<u8>>)
        requires
            part.part_body_length <= self.max_attachment_bytes ==> part.part_body_byte_offset
                + part.part_body_length <= usize::MAX,
        ensures
            r is Some <==> content_of(*part, self.max_attachment_bytes, mbox@) is Some,
            r matches Some(v) ==> content_of(*part, self.max_attachment_bytes, mbox@) == Some(v@),
    {
        match self.part_range(part, mbox.len()) {
            None => None,
            Some((start, end)) => {
                let raw = slice_to_vec(slice_subrange(mbox.as_slice(), start, end));
                match decode_attachment(&raw, part.encoding.as_str()) {
                    Ok(v) => Some(v),
                    Err(_) => None,
                }
            },
        }
    }

    /// The extension of an attachment, by which its content is read.
    pub fn extension_hint(part: &MboxPart) -> (r: Option<String>)
        ensures
            opt_view(r) == extension_of(part.filename@),
    {
        extension(part.filename.as_str())
    }

    /// The documents of the attachments of a mailbox.
    pub fn index_parts(parts: Vec<ReadPart>) -> (r: Vec<Document>)
        ensures
            r@.len() == parts@.len(),
            forall|i: int| 0 <= i < parts@.len() ==> (#[trigger] r@[i])@ == read_document(parts@[i]),
    {
        let ghost all = parts@;
        let mut left = parts;
        let mut docs: Vec<Document> = Vec::new();
        while left.len() > 0
            invariant
                docs@.len() + left@.len() == all.len(),
                left@ =~= all.skip(docs@.len() as int),
                forall|i: int|
                    0 <= i < docs@.len() ==> (#[trigger] docs@[i])@ == read_document(all[i]),
            decreases left.len(),
        {
            let p = left.remove(0);
            docs.push(Self::document(p.part, p.fallback.as_str(), p.content));
        }
        docs
    }

    /// The document of an attachment. `fallback` stands for the message where it has no
    /// identifier; `content` is `None` where the content was not read.
    pub fn document(part: MboxPart, fallback: &str, content: Option<PartContent>) -> (r: Document)
        ensures
            r@ == part_document(
                part,
                (match part.message_id {
                    Some(m) => m@,
                    None => fallback@,
                }),
                part_body(content),
                !(content matches Some(PartContent::Text(_))),
            ),
    {
        let ghost whole = part;
        let message = match part.message_id {
            Some(m) => m,
            None => fallback.to_owned(),
        };
        let mut id = String::new();
        id.append("att:");
        id.append(message.as_str());
        id.append("#");
        push_decimal(&mut id, part.part_index);
        assert(id@ =~= "att:"@ + message@ + "#"@ + decimal(part.part_index as nat));
        let (body, extract_fail): (Option<String>, bool) = match content {
            Some(PartContent::Text(t)) => {
                if t.as_str().is_empty() {
                    (None, false)
                } else {
                    (Some(t), false)
                }
            },
            Some(PartContent::Failed) => (None, true),
            None => (None, true),
        };
        let subtitle = match part.subject {
            Some(s) => s,
            None => "(no subject)".to_owned(),
        };
        Document {
            id: DocId(id),
            category: Category::Attachment,
            title: part.filename.clone(),
            subtitle,
            icon_name: None,
            kind_label: None,
            body,
            path: part.mbox_path.clone(),
            mtime: 0,
            size: part.part_body_length,
            action: Action::OpenAttachment {
                mbox_path: part.mbox_path,
                byte_offset: part.part_body_byte_offset,
                length: part.part_body_length,
                mime: part.mime,
                encoding: part.encoding,
                suggested_filename: part.filename,
            },
            extract_fail,
        }
    }
}

/// Opening the document of an attachment takes the same bytes out of the same mailbox, under
/// the same encoding, as were read when it was indexed.
pub proof fn law_opens_what_was_indexed(p: ReadPart, is_dir: bool)
    ensures
        primary_plan(read_document(p).action, is_dir) == (PlanView::OpenAttachment {
            mbox_path: p.part.mbox_path@,
            byte_offset: p.part.part_body_byte_offset,
            length: p.part.part_body_length,
            encoding: p.part.encoding@,
            suggested_filename: p.part.filename@,
        }),
{
}

/// An attachment's content is read from its own bytes of the mailbox, whatever stands before and
/// after; one that is too large, or reaches beyond the mailbox, is not read.
pub proof fn law_content(part: MboxPart, limit: u64, a: Seq<u8>, raw: Seq<u8>, b: Seq<u8>)
    requires
        part.part_body_byte_offset == a.len(),
        part.part_body_length == raw.len(),
    ensures
        raw.len() <= limit ==> content_of(part, limit, a + raw + b) == attachment_content(
            raw,
            part.encoding@,
        ),
        raw.len() > limit ==> content_of(part, limit, a + raw + b) is None,
        raw.len() > 0 ==> content_of(part, limit, a + raw.drop_last()) is None,
{
    let m = a + raw + b;
    assert(m.subrange(a.len() as int, (a.len() + raw.len()) as int) =~= raw);
}

/// The document of an attachment has its text where it could be read and there is any, and says
/// so where it could not; it goes by the name of the attachment and the subject of its mail, and
/// by the mail's own identifier where it has one.
pub proof fn law_attachment_document(p: ReadPart)
    ensures
        ({
            let d = read_document(p);
            &&& d.extract_fail <==> !(p.content matches Some(PartContent::Text(_)))
            &&& p.content matches Some(PartContent::Text(t)) ==> (if t@.len() > 0 {
                d.body == Some(t@)
            } else {
                d.body is None
            })
            &&& d.extract_fail ==> d.body is None
            &&& d.title == p.part.filename@
            &&& p.part.subject matches Some(s) ==> d.subtitle == s@
            &&& d.path == p.part.mbox_path@
            &&& d.size == p.part.part_body_length
            &&& d.category == Category::Attachment
            &&& p.part.message_id matches Some(m) ==> starts_with(d.id, "att:"@ + m@ + "#"@)
            &&& p.part.message_id is None ==> starts_with(d.id, "att:"@ + p.fallback@ + "#"@)
        }),
{
    let m = match p.part.message_id {
        Some(m) => m@,
        None => p.fallback@,
    };
    let h = "att:"@ + m + "#"@;
    let n = decimal(p.part.part_index as nat);
    assert((h + n).take(h.len() as int) =~= h);
    assert(read_document(p).id =~= h + n);
}

/// No two attachments of one mail have the same document.
pub proof fn law_attachment_ids(
    a: MboxPart,
    b: MboxPart,
    message: Seq<char>,
    body: Option<Seq<char>>,
    fail: bool,
)
    ensures
        part_document(a, message, body, fail).id == part_document(b, message, body, fail).id
            <==> a.part_index == b.part_index,
{
    let h = "att:"@ + message + "#"@;
    let x = decimal(a.part_index as nat);
    let y = decimal(b.part_index as nat);
    assert((h + x).skip(h.len() as int) =~= x);
    assert((h + y).skip(h.len() as int) =~= y);
    crate::decimal::lemma_decimal_round_trip(a.part_index as nat);
    crate::decimal::lemma_decimal_round_trip(b.part_index as nat);
}

/// Mail indexes and hidden files are no mailboxes, whatever else their names hold; every other
/// file is one.
pub proof fn law_mailbox_names(n: Seq<char>)
    ensures
        !mailbox_name(n + ".msf"@),
        !mailbox_name("."@ + n),
        !ends_with(n, ".msf"@) && n.len() > 0 && n[0] != '.' ==> mailbox_name(n),
{
    crate::text::law_parts_of_a_text(n, ".msf"@, n);
    crate::text::law_parts_of_a_text(n, "."@, n);
    reveal_strlit(".");
    assert("."@ =~= seq!['.']);
    if n.len() > 0 {
        assert(n.take(1)[0] == n[0]);
        assert(seq!['.'][0] == '.');
    }
}

}
