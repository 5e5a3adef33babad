use lupa::attachments::{MboxPart, PartContent, ReadPart, ThunderbirdAttachmentsSource};
use lupa::gloda::{
    row_document, row_documents, settled, strip_angle_brackets, with_busy_retry,
    with_busy_retry_generic, GlodaRow, GlodaSource, RetryStep, MESSAGES_QUERY,
};
use lupa::model::{Action, Category, Document};
use lupa::poll::{is_busy_message, next_key, poll_step, PollStep, POLL_INTERVAL_SECS};
use rusqlite::Connection;

fn row(id: i64) -> GlodaRow {
    GlodaRow {
        id,
        message_key: Some(42),
        header_message_id: Some("<abc@example.com>".to_string()),
        subject: Some("Hello".to_string()),
        author: Some("alice@test".to_string()),
        body: Some("Hello body".to_string()),
    }
}

fn setup_schema(conn: &Connection) {
    conn.execute_batch(
        "CREATE TABLE messages (
            id INTEGER PRIMARY KEY,
            folderID INTEGER,
            messageKey INTEGER,
            conversationID INTEGER NOT NULL DEFAULT 0,
            date INTEGER,
            headerMessageID TEXT,
            deleted INTEGER NOT NULL DEFAULT 0,
            jsonAttributes TEXT,
            notability INTEGER NOT NULL DEFAULT 0
        );
        CREATE TABLE 'messagesText_content' (
            docid INTEGER PRIMARY KEY,
            'c0body', 'c1subject', 'c2attachmentNames', 'c3author', 'c4recipients'
        );",
    )
    .unwrap();
}

fn query_messages(conn: &Connection, last_key: u64) -> Vec<Document> {
    let mut stmt = conn.prepare(MESSAGES_QUERY).unwrap();
    let rows: Vec<GlodaRow> = stmt
        .query_map([last_key as i64], |row| {
            Ok(GlodaRow {
                id: row.get(0)?,
                message_key: row.get(1)?,
                header_message_id: row.get(2)?,
                subject: row.get(3)?,
                author: row.get(4)?,
                body: row.get(5)?,
            })
        })
        .unwrap()
        .map(|r| r.unwrap())
        .collect();
    row_documents(rows)
}

#[test]
fn test_gloda_query_against_real_schema() {
    let conn = Connection::open_in_memory().unwrap();
    setup_schema(&conn);
    conn.execute(
        "INSERT INTO messages (id, messageKey, headerMessageID, deleted, conversationID) \
         VALUES (1, 42, '<abc@example.com>', 0, 0)",
        [],
    )
    .unwrap();
    conn.execute(
        "INSERT INTO messagesText_content (docid, c0body, c1subject, c3author) \
         VALUES (1, 'Hello body', 'Hello', 'alice@test')",
        [],
    )
    .unwrap();

    let docs = query_messages(&conn, 0);
    assert_eq!(docs.len(), 1);
    let d = &docs[0];
    assert_eq!(d.title, "Hello");
    assert_eq!(d.subtitle, "alice@test");
    assert!(d.body.is_some());
    assert!(d.body.as_ref().unwrap().contains("Hello body"));
    match &d.action {
        Action::OpenMail { message_id } => assert_eq!(message_id, "abc@example.com"),
        _ => panic!("expected OpenMail action"),
    }
}

#[test]
fn test_gloda_deleted_filtered() {
    let conn = Connection::open_in_memory().unwrap();
    setup_schema(&conn);
    conn.execute(
        "INSERT INTO messages (id, messageKey, headerMessageID, deleted, conversationID) \
         VALUES (1, 1, '<one@x>', 0, 0), (2, 2, '<two@x>', 1, 0)",
        [],
    )
    .unwrap();

    let docs = query_messages(&conn, 0);
    assert_eq!(docs.len(), 1);
    assert_eq!(docs[0].id.0, "mail:1");
    assert_eq!(query_messages(&conn, 1).len(), 0);
}

#[test]
fn test_gloda_missing_fts_row() {
    let conn = Connection::open_in_memory().unwrap();
    setup_schema(&conn);
    conn.execute(
        "INSERT INTO messages (id, messageKey, headerMessageID, deleted, conversationID) \
         VALUES (1, 1, '<no-fts@x>', 0, 0)",
        [],
    )
    .unwrap();

    let docs = query_messages(&conn, 0);
    assert_eq!(docs.len(), 1);
    assert_eq!(docs[0].title, "(no subject)");
    assert!(docs[0].body.is_none());
}

#[test]
fn test_gloda_fallback_to_message_key() {
    let conn = Connection::open_in_memory().unwrap();
    setup_schema(&conn);
    conn.execute(
        "INSERT INTO messages (id, messageKey, headerMessageID, deleted, conversationID) \
         VALUES (1, 42, NULL, 0, 0)",
        [],
    )
    .unwrap();

    let docs = query_messages(&conn, 0);
    assert_eq!(docs.len(), 1);
    match &docs[0].action {
        Action::OpenMail { message_id } => assert_eq!(message_id, "42"),
        _ => panic!("expected OpenMail action"),
    }
}

#[test]
fn test_strip_angle_brackets() {
    assert_eq!(strip_angle_brackets("<a>".into()), "a");
    assert_eq!(strip_angle_brackets("<a@b.com>".into()), "a@b.com");
    assert_eq!(strip_angle_brackets("noangles".into()), "noangles");
    assert_eq!(strip_angle_brackets("<unbalanced".into()), "<unbalanced");
    assert_eq!(strip_angle_brackets("".into()), "");
}

/// Runs `f` until it succeeds or the retries say to give up.
fn run_with_retry(backoffs: &[u64], mut f: impl FnMut() -> Result<i32, i32>) -> Result<i32, i32> {
    let backoffs = backoffs.to_vec();
    let mut attempt = 0;
    loop {
        match f() {
            Ok(v) => return Ok(v),
            Err(e) => match with_busy_retry_generic(&backoffs, attempt, e == 5) {
                RetryStep::GiveUp => return Err(e),
                RetryStep::Retry { after_ms } => {
                    assert_eq!(after_ms, 0);
                    attempt += 1;
                }
            },
        }
    }
}

#[test]
fn retries_on_busy_then_succeeds() {
    let mut calls = 0;
    let result = run_with_retry(&[0, 0, 0], || {
        calls += 1;
        if calls <= 2 {
            Err(5)
        } else {
            Ok(42)
        }
    });
    assert_eq!(result.unwrap(), 42);
    assert_eq!(calls, 3);
}

#[test]
fn non_busy_error_not_retried() {
    let mut calls = 0;
    let result = run_with_retry(&[0, 0, 0], || {
        calls += 1;
        Err(99)
    });
    assert!(result.is_err());
    assert_eq!(result.unwrap_err(), 99);
    assert_eq!(calls, 1);
}

#[test]
fn all_retries_exhausted() {
    let mut calls = 0;
    let result = run_with_retry(&[0, 0, 0], || {
        calls += 1;
        Err(5)
    });
    assert!(result.is_err());
    assert_eq!(result.unwrap_err(), 5);
    assert_eq!(calls, 4);
}

fn wait(step: RetryStep) -> Option<u64> {
    match step {
        RetryStep::GiveUp => None,
        RetryStep::Retry { after_ms } => Some(after_ms),
    }
}

#[test]
fn waiting_times() {
    assert_eq!(wait(with_busy_retry(0, true)), Some(100));
    assert_eq!(wait(with_busy_retry(1, true)), Some(500));
    assert_eq!(wait(with_busy_retry(2, true)), Some(2000));
    assert_eq!(wait(with_busy_retry(3, true)), None);
    assert_eq!(wait(with_busy_retry(0, false)), None);
}

#[test]
fn busy_database_gives_no_documents() {
    let r: Result<Vec<Document>, i32> = settled(Err(5), true);
    assert_eq!(r.unwrap().len(), 0);
    let r: Result<Vec<Document>, i32> = settled(Err(6), false);
    assert_eq!(r.err(), Some(6));
    let r: Result<Vec<Document>, i32> = settled(Ok(row_documents(vec![row(3)])), false);
    assert_eq!(r.unwrap().len(), 1);
}

#[test]
fn documents_of_messages() {
    let d = row_document(row(-7));
    assert_eq!(d.id.0, "mail:-7");
    assert_eq!(d.category, Category::Mail);
    assert_eq!(d.icon_name.as_deref(), Some("mail-message"));
    assert_eq!(d.kind_label.as_deref(), Some("Email"));
    assert_eq!(d.path, "thunderbird:-7");
    assert_eq!((d.mtime, d.size, d.extract_fail), (0, 0, false));
    let d = row_document(GlodaRow {
        header_message_id: Some(String::new()),
        message_key: None,
        body: Some(String::new()),
        author: None,
        ..row(1)
    });
    assert_eq!(d.body, None);
    assert_eq!(d.subtitle, "");
    match &d.action {
        Action::OpenMail { message_id } => assert_eq!(message_id, ""),
        _ => panic!("expected OpenMail action"),
    }
}

#[test]
fn profiles() {
    let names: Vec<String> = ["Crash Reports", "x.default-release", "y.default"]
        .iter()
        .map(|s| s.to_string())
        .collect();
    assert_eq!(GlodaSource::find_profile(&names), Some(1));
    assert_eq!(GlodaSource::find_profile(&vec![]), None);
    let s = GlodaSource::new("/p".to_string(), 9);
    assert_eq!(s.name(), "gloda");
    assert_eq!(s.db_path(), "/p/global-messages-db.sqlite");
    assert_eq!(s.last_key, 9);
}

#[test]
fn next_message_to_ask_for() {
    let docs = row_documents(vec![row(3), row(12), row(-2), row(5)]);
    assert_eq!(next_key(&docs, 1), 12);
    assert_eq!(next_key(&Vec::new(), 8), 8);
    assert_eq!(next_key(&row_documents(vec![row(-2)]), 8), 8);
    assert_eq!(next_key(&docs, 100), 12);
}

#[test]
fn polling() {
    assert_eq!(POLL_INTERVAL_SECS, 30);
    assert!(is_busy_message("database is locked (code 5)"));
    assert!(is_busy_message("the file is busy"));
    assert!(!is_busy_message("no such table"));
    assert!(matches!(poll_step(0), PollStep::Wait));
    assert!(matches!(poll_step(4), PollStep::Read { after: 4 }));
}

fn part() -> MboxPart {
    MboxPart {
        mbox_path: "/p/Mail/Inbox".to_string(),
        message_id: Some("m@x".to_string()),
        subject: Some("Searchable attachment".to_string()),
        part_index: 2,
        part_body_byte_offset: 10,
        part_body_length: 20,
        filename: "note.txt".to_string(),
        mime: "text/plain".to_string(),
        encoding: "base64".to_string(),
    }
}

#[test]
fn attachments() {
    let source = ThunderbirdAttachmentsSource::new("/p".to_string(), 20);
    assert_eq!(source.name(), "thunderbird_attachments");
    assert_eq!(source.mail_dirs(), vec!["/p/Mail", "/p/ImapMail"]);
    assert!(ThunderbirdAttachmentsSource::is_mailbox("Inbox"));
    assert!(!ThunderbirdAttachmentsSource::is_mailbox("Inbox.msf"));
    assert!(!ThunderbirdAttachmentsSource::is_mailbox(".hidden"));
    assert_eq!(source.part_range(&part(), 30), Some((10, 30)));
    assert_eq!(source.part_range(&part(), 29), None);
    let small = ThunderbirdAttachmentsSource::new("/p".to_string(), 19);
    assert_eq!(small.part_range(&part(), 30), None);
}

#[test]
fn documents_of_attachments() {
    let d = ThunderbirdAttachmentsSource::document(
        part(),
        "fallback",
        Some(PartContent::Text("UNIQUE_TEST_MARKER".to_string())),
    );
    assert_eq!(d.id.0, "att:m@x#2");
    assert_eq!(d.category, Category::Attachment);
    assert_eq!(d.title, "note.txt");
    assert_eq!(d.subtitle, "Searchable attachment");
    assert_eq!(d.body.as_deref(), Some("UNIQUE_TEST_MARKER"));
    assert!(!d.extract_fail);
    assert_eq!(d.size, 20);
    match &d.action {
        Action::OpenAttachment { mbox_path, byte_offset, length, mime, encoding, suggested_filename } => {
            assert_eq!(mbox_path, "/p/Mail/Inbox");
            assert_eq!((*byte_offset, *length), (10, 20));
            assert_eq!(mime, "text/plain");
            assert_eq!(encoding, "base64");
            assert_eq!(suggested_filename, "note.txt");
        }
        _ => panic!("expected an attachment"),
    }
    let bare = MboxPart { message_id: None, subject: None, ..part() };
    let d = ThunderbirdAttachmentsSource::document(bare, "fallback", None);
    assert_eq!(d.id.0, "att:fallback#2");
    assert_eq!(d.subtitle, "(no subject)");
    assert!(d.extract_fail && d.body.is_none());
    let d = ThunderbirdAttachmentsSource::document(
        part(),
        "f",
        Some(PartContent::Text(String::new())),
    );
    assert!(!d.extract_fail && d.body.is_none());
    let d = ThunderbirdAttachmentsSource::document(part(), "f", Some(PartContent::Failed));
    assert!(d.extract_fail && d.body.is_none());
}

#[test]
fn content_of_attachments() {
    let source = ThunderbirdAttachmentsSource::new("/p".to_string(), 24);
    let mbox = b"0123456789VU5JUVVFX1RFU1RfTUFSS0VS\nrest".to_vec();
    let whole = MboxPart { part_body_length: 24, ..part() };
    assert_eq!(source.part_content(&whole, &mbox), Some(b"UNIQUE_TEST_MARKER".to_vec()));
    let large = MboxPart { part_body_length: 25, ..part() };
    assert_eq!(source.part_content(&large, &mbox), None);
    let endless =
        MboxPart { part_body_byte_offset: u64::MAX, part_body_length: u64::MAX, ..part() };
    assert_eq!(source.part_content(&endless, &mbox), None);
    let outside = MboxPart { part_body_byte_offset: 20, part_body_length: 24, ..part() };
    assert_eq!(source.part_content(&outside, &mbox), None);
    let unknown = MboxPart { encoding: "x-uuencode".to_string(), ..part() };
    assert_eq!(source.part_content(&unknown, &mbox), None);
    let plain = MboxPart { encoding: "8bit".to_string(), part_body_length: 4, ..part() };
    assert_eq!(source.part_content(&plain, &mbox), Some(b"VU5J".to_vec()));
}

#[test]
fn documents_of_a_mailbox() {
    let text = PartContent::Text("text".to_string());
    let first = ReadPart { part: part(), fallback: "f".to_string(), content: Some(text) };
    let bare = MboxPart { message_id: None, part_index: 3, ..part() };
    let second = ReadPart { part: bare, fallback: "f".to_string(), content: None };
    let docs = ThunderbirdAttachmentsSource::index_parts(vec![first, second]);
    assert_eq!(docs.len(), 2);
    assert_eq!((docs[0].id.0.as_str(), docs[0].body.as_deref()), ("att:m@x#2", Some("text")));
    assert_eq!((docs[1].id.0.as_str(), docs[1].extract_fail), ("att:f#3", true));
    let plan = lupa::actions::execute_action(&docs[0].action, false);
    match plan {
        lupa::actions::ActionPlan::OpenAttachment { mbox_path, byte_offset, length, encoding, .. } => {
            assert_eq!(mbox_path, "/p/Mail/Inbox");
            assert_eq!((byte_offset, length), (10, 20));
            assert_eq!(encoding, "base64");
        }
        _ => panic!("expected an attachment"),
    }
}

#[test]
fn extension_of_attachments() {
    let hint = |name: &str| {
        ThunderbirdAttachmentsSource::extension_hint(&MboxPart {
            filename: name.to_string(),
            ..part()
        })
    };
    assert_eq!(hint("note.txt").as_deref(), Some("txt"));
    assert_eq!(hint("a.tar.GZ").as_deref(), Some("GZ"));
    assert_eq!(hint("README"), None);
    assert_eq!(hint(".hidden"), None);
}
