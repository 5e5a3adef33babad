//! Messages of Thunderbird: retries while its database is busy, and the documents made of
//! its rows.
use crate::decimal::i64_text;
use crate::model::{Action, Category, DocId, Document};
use crate::paths::path_join;
use crate::text::{chars_of, contains, string_range};
use vstd::prelude::*;
use vstd::string::*;

verus! {

use crate::decimal::signed_decimal;
use crate::model::{ActionView, DocumentView};
use crate::paths::path_joined;
use crate::text::{occurs, opt_view};

/// A Thunderbird profile and the last message that is indexed.
pub struct GlodaSource {
    pub profile_path: String,
    pub last_key: u64,
}

impl GlodaSource {
    /// A source for the messages after the given one.
    pub fn new(profile_path: String, last_key: u64) -> (r: Self)
        ensures
            r.profile_path == profile_path,
            r.last_key == last_key,
    {
        GlodaSource { profile_path, last_key }
    }

    /// The name of the source.
    pub fn name(&self) -> (r: &'static str)
        ensures
            r@ == "gloda"@,
    {
        "gloda"
    }

    /// The path of the database.
    pub fn db_path(&self) -> (r: String)
        ensures
            r@ == path_joined(self.profile_path@, "global-messages-db.sqlite"@),
    {
        path_join(self.profile_path.as_str(), "global-messages-db.sqlite")
    }

    /// The first of the directories in the Thunderbird directory whose name marks it as a
    /// default profile.
    pub fn find_profile(names: &Vec<String>) -> (r: Option<usize>)
        ensures
            r matches Some(i) ==> i < names@.len() && occurs(names@[i as int]@, ".default"@)
                && forall|j: int| 0 <= j < i ==> !occurs((#[trigger] names@[j])@, ".default"@),
            r is None ==> forall|j: int|
                0 <= j < names@.len() ==> !occurs((#[trigger] names@[j])@, ".default"@),
    {
        for i in 0..names.len()
            invariant
                forall|j: int| 0 <= j < i ==> !occurs((#[trigger] names@[j])@, ".default"@),
        {
            if contains(names[i].as_str(), ".default") {
                return Some(i);
            }
        }
        None
    }
}

// --- Retries ---

/// What follows a failed attempt.
#[derive(Debug, Clone, Copy, PartialEq, Eq, Structural)]
pub enum RetryStep {
    /// The error is final.
    GiveUp,
    /// Another attempt follows, after so many milliseconds.
    Retry { after_ms: u64 },
}

/// What follows when the attempt of the given number, counted from zero, failed.
pub open spec fn retry_after(backoffs: Seq<u64>, attempt: nat, busy: bool) -> RetryStep {
    if busy && attempt < backoffs.len() {
        RetryStep::Retry { after_ms: backoffs[attempt as int] }
    } else {
        RetryStep::GiveUp
    }
}

/// What follows when the attempt of the given number, counted from zero, failed: a retry
/// where the database was busy and a waiting time is left, else the error.
pub fn with_busy_retry_generic(backoffs: &Vec<u64>, attempt: usize, busy: bool) -> (r: RetryStep)
    ensures
        r == retry_after(backoffs@, attempt as nat, busy),
{
    if busy && attempt < backoffs.len() {
        RetryStep::Retry { after_ms: backoffs[attempt] }
    } else {
        RetryStep::GiveUp
    }
}

/// The waiting times, in milliseconds, between attempts on the database.
pub open spec fn busy_backoffs() -> Seq<u64> {
    seq![100u64, 500, 2000]
}

/// What follows when the attempt of the given number on the database failed.
pub fn with_busy_retry(attempt: usize, busy: bool) -> (r: RetryStep)
    ensures
        r == retry_after(busy_backoffs(), attempt as nat, busy),
{
    let mut backoffs: Vec<u64> = Vec::new();
    backoffs.push(100);
    backoffs.push(500);
    backoffs.push(2000);
    assert(backoffs@ =~= busy_backoffs());
    with_busy_retry_generic(&backoffs, attempt, busy)
}

/// How an attempt ends.
pub enum Attempt {
    Done,
    Busy,
    Failed,
}

/// How many attempts are made from the given one on, when `ends` says how each would end.
pub open spec fn attempts_made(
    backoffs: Seq<u64>,
    ends: spec_fn(nat) -> Attempt,
    attempt: nat,
) -> nat
    decreases backoffs.len() + 1 - attempt,
{
    if ends(attempt) is Done || retry_after(backoffs, attempt, ends(attempt) is Busy) is GiveUp {
        1
    } else {
        1 + attempts_made(backoffs, ends, attempt + 1)
    }
}

/// At most one attempt more is made than there are waiting times; exactly so many where the
/// database stays busy; and only one where the first attempt succeeds or fails otherwise.
pub proof fn law_attempts(backoffs: Seq<u64>, ends: spec_fn(nat) -> Attempt)
    ensures
        1 <= attempts_made(backoffs, ends, 0) <= backoffs.len() + 1,
        (forall|i: nat| #[trigger] ends(i) is Busy) ==> attempts_made(backoffs, ends, 0)
            == backoffs.len() + 1,
        !(ends(0) is Busy) ==> attempts_made(backoffs, ends, 0) == 1,
        forall|k: nat|
            k <= backoffs.len() && !(#[trigger] ends(k) is Busy) && (forall|i: nat|
                i < k ==> #[trigger] ends(i) is Busy) ==> attempts_made(backoffs, ends, 0) == k + 1,
{
    lemma_attempts(backoffs, ends, 0);
    assert forall|k: nat|
        k <= backoffs.len() && !(#[trigger] ends(k) is Busy) && (forall|i: nat|
            i < k ==> #[trigger] ends(i) is Busy) implies attempts_made(backoffs, ends, 0) == k
        + 1 by {
        lemma_attempts_until(backoffs, ends, 0, k);
    }
}

proof fn lemma_attempts(backoffs: Seq<u64>, ends: spec_fn(nat) -> Attempt, attempt: nat)
    requires
        attempt <= backoffs.len(),
    ensures
        1 <= attempts_made(backoffs, ends, attempt) <= backoffs.len() + 1 - attempt,
        (forall|i: nat| #[trigger] ends(i) is Busy) ==> attempts_made(backoffs, ends, attempt)
            == backoffs.len() + 1 - attempt,
    decreases backoffs.len() - attempt,
{
    if attempt < backoffs.len() {
        lemma_attempts(backoffs, ends, attempt + 1);
    }
}

proof fn lemma_attempts_until(
    backoffs: Seq<u64>,
    ends: spec_fn(nat) -> Attempt,
    attempt: nat,
    k: nat,
)
    requires
        attempt <= k <= backoffs.len(),
        !(ends(k) is Busy),
        forall|i: nat| i < k ==> #[trigger] ends(i) is Busy,
    ensures
        attempts_made(backoffs, ends, attempt) == k + 1 - attempt,
    decreases k - attempt,
{
    if attempt < k {
        lemma_attempts_until(backoffs, ends, attempt + 1, k);
    }
}

/// What reading the messages gives in the end: no messages where the database stayed busy.
pub fn settled<E>(result: Result<Vec<Document>, E>, busy: bool) -> (r: Result<Vec<Document>, E>)
    ensures
        result is Ok ==> r == result,
        result is Err && busy ==> (r matches Ok(v) && v@.len() == 0),
        result is Err && !busy ==> r == result,
{
    match result {
        Ok(docs) => Ok(docs),
        Err(e) => {
            if busy {
                Ok(Vec::new())
            } else {
                Err(e)
            }
        },
    }
}

// --- Rows ---

/// How the messages after a given one are asked for: the columns are the fields of a row in
/// their order, and the only parameter is the number of the last message that is known.
pub const MESSAGES_QUERY: &'static str =
    "SELECT m.id, m.messageKey, m.headerMessageID, mt.c1subject, mt.c3author, mt.c0body FROM messages m LEFT JOIN messagesText_content mt ON m.id = mt.docid WHERE m.id > ? AND m.deleted = 0 ORDER BY m.id ASC LIMIT 10000";

/// A row of the database: a message and what is known of it.
pub struct GlodaRow {
    pub id: i64,
    pub message_key: Option<i64>,
    pub header_message_id: Option<String>,
    pub subject: Option<String>,
    pub author: Option<String>,
    pub body: Option<String>,
}

/// The text between a pair of angle brackets around all of it; else the text as it is.
pub open spec fn without_brackets(s: Seq<char>) -> Seq<char> {
    if s.len() >= 2 && s[0] == '<' && s.last() == '>' {
        s.subrange(1, s.len() - 1)
    } else {
        s
    }
}

/// The text between a pair of angle brackets around all of it; else the text as it is.
pub fn strip_angle_brackets(s: String) -> (r: String)
    ensures
        r@ == without_brackets(s@),
{
    let cs = chars_of(s.as_str());
    if cs.len() >= 2 && cs[0] == '<' && cs[cs.len() - 1] == '>' {
        string_range(&cs, 1, cs.len() - 1)
    } else {
        s
    }
}

/// The identifier of a message: the one in its header, else its key, else none.
pub open spec fn message_id_of(header: Option<Seq<char>>, key: Option<i64>) -> Seq<char> {
    match header {
        Some(h) => if h.len() > 0 {
            without_brackets(h)
        } else {
            key_text(key)
        },
        None => key_text(key),
    }
}

/// The key of a message as text.
pub open spec fn key_text(key: Option<i64>) -> Seq<char> {
    match key {
        Some(k) => signed_decimal(k as int),
        None => Seq::empty(),
    }
}

/// A text, unless there is none or it is empty.
pub open spec fn nonempty(o: Option<Seq<char>>) -> Option<Seq<char>> {
    match o {
        Some(s) => if s.len() > 0 {
            Some(s)
        } else {
            None
        },
        None => None,
    }
}

/// The document of a message.
pub open spec fn message_document(row: GlodaRow) -> DocumentView {
    DocumentView {
        id: "mail:"@ + signed_decimal(row.id as int),
        category: Category::Mail,
        title: (match row.subject {
            Some(s) => s@,
            None => "(no subject)"@,
        }),
        subtitle: (match row.author {
            Some(s) => s@,
            None => Seq::empty(),
        }),
        icon_name: Some("mail-message"@),
        kind_label: Some("Email"@),
        body: nonempty(opt_view(row.body)),
        path: "thunderbird:"@ + signed_decimal(row.id as int),
        mtime: 0,
        size: 0,
        action: ActionView::OpenMail {
            message_id: message_id_of(opt_view(row.header_message_id), row.message_key),
        },
        extract_fail: false,
    }
}

/// The identifier of a message.
fn message_id(header: Option<String>, key: Option<i64>) -> (r: String)
    ensures
        r@ == message_id_of(opt_view(header), key),
{
    match header {
        Some(h) => {
            if !h.as_str().is_empty() {
                return strip_angle_brackets(h);
            }
        },
        None => {},
    }
    match key {
        Some(k) => i64_text(k),
        None => String::new(),
    }
}

/// A prefix and a number.
fn tagged(prefix: &str, n: i64) -> (r: String)
    ensures
        r@ == prefix@ + signed_decimal(n as int),
{
    let mut s = String::new();
    s.append(prefix);
    s.append(i64_text(n).as_str());
    assert(s@ =~= prefix@ + signed_decimal(n as int));
    s
}

/// The document of a message.
pub fn row_document(row: GlodaRow) -> (r: Document)
    ensures
        r@ == message_document(row),
{
    let title = match row.subject {
        Some(s) => s,
        None => "(no subject)".to_owned(),
    };
    let subtitle = match row.author {
        Some(s) => s,
        None => String::new(),
    };
    let body = match row.body {
        Some(b) => {
            if b.as_str().is_empty() {
                None
            } else {
                Some(b)
            }
        },
        None => None,
    };
    let r = Document {
        id: DocId(tagged("mail:", row.id)),
        category: Category::Mail,
        title,
        subtitle,
        icon_name: Some("mail-message".to_owned()),
        kind_label: Some("Email".to_owned()),
        body,
        path: tagged("thunderbird:", row.id),
        mtime: 0,
        size: 0,
        action: Action::OpenMail { message_id: message_id(row.header_message_id, row.message_key) },
        extract_fail: false,
    };
    assert(r@.subtitle =~= message_document(row).subtitle);
    r
}

/// The documents of the messages, in their order.
pub fn row_documents(rows: Vec<GlodaRow>) -> (r: Vec<Document>)
    ensures
        r@.len() == rows@.len(),
        forall|i: int| 0 <= i < rows@.len() ==> (#[trigger] r@[i])@ == message_document(rows@[i]),
{
    let ghost all = rows@;
    let mut left = rows;
    let mut docs: Vec<Document> = Vec::new();
    while left.len() > 0
        invariant
            docs@.len() + left@.len() == all.len(),
            left@ =~= all.skip(docs@.len() as int),
            forall|i: int| 0 <= i < docs@.len() ==> (#[trigger] docs@[i])@ == message_document(all[i]),
        decreases left.len(),
    {
        let row = left.remove(0);
        docs.push(row_document(row));
    }
    docs
}

// --- Laws ---

/// Angle brackets round a message identifier go, and nothing else does.
pub proof fn law_brackets(s: Seq<char>)
    ensures
        without_brackets(seq!['<'] + s + seq!['>']) == s,
        s.len() == 0 || s[0] != '<' || s.last() != '>' ==> without_brackets(s) == s,
        without_brackets(seq!['<'] + s + seq!['>', '>']) == s + seq!['>'],
{
    let t = seq!['<'] + s + seq!['>'];
    assert(t.last() == '>');
    assert(t.subrange(1, t.len() - 1) =~= s);
    let u = seq!['<'] + s + seq!['>', '>'];
    assert(u.last() == '>');
    assert(u.subrange(1, u.len() - 1) =~= s + seq!['>']);
}

/// Opening the document of a message opens the message that its header names, or, where the
/// header has no identifier, the one with its key; the document shows the subject and the author
/// as they are, and holds the whole text of the message.
pub proof fn law_message_document(row: GlodaRow, id: Seq<char>, is_dir: bool)
    ensures
        ({
            let d = message_document(row);
            &&& d.action is OpenMail
            &&& opt_view(row.header_message_id) == Some(seq!['<'] + id + seq!['>'])
                ==> crate::actions::primary_plan(d.action, is_dir)
                == crate::actions::primary_plan(ActionView::OpenMail { message_id: id }, is_dir)
            &&& opt_view(row.header_message_id) == Some(id) && id.len() > 0 && id[0] != '<'
                ==> d.action == (ActionView::OpenMail { message_id: id })
            &&& row.header_message_id is None && row.message_key is Some ==> d.action == (
            ActionView::OpenMail { message_id: signed_decimal(row.message_key->0 as int) })
            &&& opt_view(row.header_message_id) == Some(Seq::<char>::empty()) ==> d.action == (
            ActionView::OpenMail { message_id: key_text(row.message_key) })
            &&& row.subject matches Some(s) ==> d.title == s@
            &&& row.subject is None ==> d.title == "(no subject)"@
            &&& row.author matches Some(s) ==> d.subtitle == s@
            &&& row.body matches Some(s) ==> (s@.len() > 0 ==> d.body == Some(s@))
            &&& d.body is Some ==> row.body is Some && d.body->0.len() > 0
            &&& d.category == Category::Mail && !d.extract_fail
        }),
{
    law_brackets(id);
}

/// No two messages have the same document, and its identifier is made of the message's own.
pub proof fn law_message_ids(a: GlodaRow, b: GlodaRow)
    ensures
        message_document(a).id == message_document(b).id <==> a.id == b.id,
        message_document(a).path == message_document(b).path <==> a.id == b.id,
{
    let x = signed_decimal(a.id as int);
    let y = signed_decimal(b.id as int);
    let m = "mail:"@;
    let t = "thunderbird:"@;
    assert((m + x).skip(m.len() as int) =~= x);
    assert((m + y).skip(m.len() as int) =~= y);
    assert((t + x).skip(t.len() as int) =~= x);
    assert((t + y).skip(t.len() as int) =~= y);
    crate::decimal::law_signed_round_trip(a.id as int, i64::MIN as int, i64::MAX as int);
    crate::decimal::law_signed_round_trip(b.id as int, i64::MIN as int, i64::MAX as int);
}

/// Only a busy store is tried again, after the next wait of the list; any other error is final,
/// and so is being busy once the list is used up. The waits grow.
pub proof fn law_retries(backoffs: Seq<u64>, attempt: nat, busy: bool)
    ensures
        retry_after(backoffs, attempt, busy) is Retry <==> busy && attempt < backoffs.len(),
        retry_after(backoffs, attempt, busy) matches RetryStep::Retry { after_ms } ==> after_ms
            == backoffs[attempt as int],
        forall|i: int, j: int|
            0 <= i < j < busy_backoffs().len() ==> (#[trigger] busy_backoffs()[i]) < (
            #[trigger] busy_backoffs()[j]),
        busy_backoffs().len() == 3,
{
}

}
