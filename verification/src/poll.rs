//! Looking for new messages from time to time.
use crate::decimal::parse_unsigned;
use crate::model::Document;
use crate::text::{contains, strip_prefix};
use vstd::prelude::*;
use vstd::string::*;

verus! {

use crate::decimal::{signed_decimal, unsigned};
use crate::model::{document_views, DocumentView};
use crate::text::{occurs, starts_with};

/// How many seconds lie between two looks.
pub const POLL_INTERVAL_SECS: u64 = 30;

/// The number of the message that a document is of, where it is of one.
pub open spec fn message_key(id: Seq<char>) -> Option<nat> {
    if starts_with(id, "mail:"@) {
        unsigned(id.skip("mail:"@.len() as int), u64::MAX as nat)
    } else {
        None
    }
}

/// The greatest number of a message among the documents, where there is one.
pub open spec fn greatest_key(docs: Seq<DocumentView>) -> Option<nat>
    decreases docs.len(),
{
    if docs.len() == 0 {
        None
    } else {
        match (greatest_key(docs.drop_last()), message_key(docs.last().id)) {
            (Some(a), Some(b)) => Some(
                if b >= a {
                    b
                } else {
                    a
                },
            ),
            (Some(a), None) => Some(a),
            (None, b) => b,
        }
    }
}

/// The key after which the messages are read next, once the documents were taken in: the
/// greatest of theirs, else the one before.
pub open spec fn resumed_key(docs: Seq<DocumentView>, last: u64) -> int {
    match greatest_key(docs) {
        Some(k) => k as int,
        None => last as int,
    }
}

/// The number of the last message that is indexed, once these documents are: the greatest
/// of theirs, or the one from before.
pub fn next_key(docs: &Vec<Document>, last: u64) -> (r: u64)
    ensures
        r == resumed_key(document_views(docs@), last),
{
    let ghost all = document_views(docs@);
    let mut best: Option<u64> = None;
    let mut i: usize = 0;
    assert(all.take(0) =~= Seq::<DocumentView>::empty());
    while i < docs.len()
        invariant
            i <= docs@.len(),
            all == document_views(docs@),
            best == (match greatest_key(all.take(i as int)) {
                Some(k) => Some(k as u64),
                None => None,
            }),
            greatest_key(all.take(i as int)) matches Some(k) ==> k <= u64::MAX,
        decreases docs.len() - i,
    {
        proof {
            assert(all.take(i + 1).drop_last() =~= all.take(i as int));
            assert(all.take(i + 1).last() == docs@[i as int]@);
        }
        let key: Option<u64> = match strip_prefix(docs[i].id.0.as_str(), "mail:") {
            Some(rest) => parse_unsigned(rest.as_str(), u64::MAX),
            None => None,
        };
        best = match (best, key) {
            (Some(a), Some(b)) => {
                if b >= a {
                    Some(b)
                } else {
                    Some(a)
                }
            },
            (Some(a), None) => Some(a),
            (None, b) => b,
        };
        i = i + 1;
    }
    assert(all.take(i as int) =~= all);
    match best {
        Some(k) => k,
        None => last,
    }
}

/// Whether an error message says that the store is in use.
pub open spec fn says_busy(msg: Seq<char>) -> bool {
    occurs(msg, "database is locked"@) || occurs(msg, "busy"@)
}

/// Whether an error says that the database is in use, and that the next look will do.
pub fn is_busy_message(msg: &str) -> (r: bool)
    ensures
        r == says_busy(msg@),
{
    contains(msg, "database is locked") || contains(msg, "busy")
}

/// Where looking for new messages has got to.
#[derive(Debug, Clone, Copy, PartialEq, Eq, Structural)]
pub enum PollStep {
    /// Wait for the next look.
    Wait,
    /// Read the messages after this one.
    Read { after: u64 },
}

/// What a look at the store begins with.
pub open spec fn poll_after(last_key: u64) -> PollStep {
    if last_key == 0 {
        PollStep::Wait
    } else {
        PollStep::Read { after: last_key }
    }
}

/// What a look does: without a first full indexing, nothing.
pub fn poll_step(last_key: u64) -> (r: PollStep)
    ensures
        r == poll_after(last_key),
{
    if last_key == 0 {
        PollStep::Wait
    } else {
        PollStep::Read { after: last_key }
    }
}

/// The number that is kept is that of one of the documents, and none of them has a greater
/// one.
pub proof fn law_greatest_key(docs: Seq<DocumentView>)
    ensures
        greatest_key(docs) matches Some(k) ==> (exists|i: int|
            0 <= i < docs.len() && message_key((#[trigger] docs[i]).id) == Some(k)) && (forall|i: int|
            0 <= i < docs.len() ==> (message_key((#[trigger] docs[i]).id) matches Some(m) ==> m <= k)),
        greatest_key(docs) is None ==> forall|i: int|
            0 <= i < docs.len() ==> message_key((#[trigger] docs[i]).id) is None,
    decreases docs.len(),
{
    if docs.len() > 0 {
        let t = docs.drop_last();
        law_greatest_key(t);
        assert forall|i: int| 0 <= i < t.len() implies #[trigger] docs[i] == t[i] by {}
        match greatest_key(docs) {
            Some(k) => {
                if message_key(docs.last().id) == Some(k) {
                    assert(message_key(docs[docs.len() - 1].id) == Some(k));
                } else {
                    let i = choose|i: int|
                        0 <= i < t.len() && message_key((#[trigger] t[i]).id) == Some(k);
                    assert(message_key(docs[i].id) == Some(k));
                }
                assert forall|i: int| 0 <= i < docs.len() implies (message_key(
                    (#[trigger] docs[i]).id,
                ) matches Some(m) ==> m <= k) by {
                    if i < t.len() {
                        assert(docs[i] == t[i]);
                        assert(message_key(t[i].id) matches Some(m) ==> m <= k);
                    }
                }
            },
            None => {
                assert forall|i: int| 0 <= i < docs.len() implies message_key(
                    (#[trigger] docs[i]).id,
                ) is None by {
                    if i < t.len() {
                        assert(docs[i] == t[i]);
                        assert(message_key(t[i].id) is None);
                    }
                }
            },
        }
    }
}

/// The document of a message is counted under the number of the message.
pub proof fn law_message_key_of_row(row: crate::gloda::GlodaRow)
    requires
        row.id >= 0,
    ensures
        message_key(crate::gloda::message_document(row).id) == Some(row.id as nat),
{
    let id = crate::gloda::message_document(row).id;
    let n = signed_decimal(row.id as int);
    assert(id == "mail:"@ + n);
    assert(id.take("mail:"@.len() as int) =~= "mail:"@);
    assert(id.skip("mail:"@.len() as int) =~= n);
    crate::decimal::law_unsigned_round_trip(row.id as nat, u64::MAX as nat);
}

/// Reading goes on after every message that was taken in, and stays where it is without any:
/// no key that was seen lies beyond it, and it is never one that was not.
pub proof fn law_resumed_key(docs: Seq<DocumentView>, last: u64, i: int)
    ensures
        0 <= i < docs.len() ==> (message_key(docs[i].id) matches Some(k) ==> k <= resumed_key(
            docs,
            last,
        )),
        (forall|j: int| 0 <= j < docs.len() ==> message_key((#[trigger] docs[j]).id) is None)
            ==> resumed_key(docs, last) == last,
        resumed_key(docs, last) == last || exists|j: int|
            0 <= j < docs.len() && message_key((#[trigger] docs[j]).id) == Some(
                resumed_key(docs, last) as nat,
            ),
{
    law_greatest_key(docs);
}

/// Only mail has a message key; the identifiers of other documents have none.
pub proof fn law_other_documents_have_no_key(id: Seq<char>)
    ensures
        !starts_with(id, "mail:"@) ==> message_key(id) is None,
        message_key("mail:"@ + id) == unsigned(id, u64::MAX as nat),
{
    let m = "mail:"@;
    assert((m + id).take(m.len() as int) =~= m);
    assert((m + id).skip(m.len() as int) =~= id);
}

/// The store is looked at only once a message was seen, and then from that message on.
pub proof fn law_poll(last_key: u64)
    ensures
        poll_after(last_key) is Wait <==> last_key == 0,
        poll_after(last_key) matches PollStep::Read { after } ==> after == last_key,
{
}

/// A message says that the store is in use wherever the words stand in it.
pub proof fn law_busy_messages(a: Seq<char>, b: Seq<char>)
    ensures
        says_busy(a + "busy"@ + b),
        says_busy(a + "database is locked"@ + b),
        !occurs(a, "busy"@) && !occurs(a, "database is locked"@) ==> !says_busy(a),
{
    crate::text::law_parts_of_a_text(a, "busy"@, b);
    crate::text::law_parts_of_a_text(a, "database is locked"@, b);
}

}
