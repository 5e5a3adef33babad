use lupa::model::{Action, Category, DocId, Query};

#[test]
fn test_category_as_str() {
    assert_eq!(Category::App.as_str(), "app");
    assert_eq!(Category::File.as_str(), "file");
    assert_eq!(Category::Mail.as_str(), "mail");
    assert_eq!(Category::Attachment.as_str(), "attachment");
}

#[test]
fn test_doc_id_equality() {
    let a = DocId("fs:/tmp/test.txt".to_string());
    let b = DocId("fs:/tmp/test.txt".to_string());
    let c = DocId("fs:/tmp/other.txt".to_string());
    assert_eq!(a, b);
    assert_ne!(a, c);
}

#[test]
fn test_query_clone() {
    let q = Query {
        text: "hello world".to_string(),
        limit: 10,
    };
    let q2 = q.clone();
    assert_eq!(q.text, q2.text);
    assert_eq!(q.limit, q2.limit);
}

#[test]
fn actions_are_copied_whole() {
    let a = Action::OpenAttachment {
        mbox_path: "/tmp/mail.mbox".to_string(),
        byte_offset: 100,
        length: 500,
        mime: "application/pdf".to_string(),
        encoding: "base64".to_string(),
        suggested_filename: "test.pdf".to_string(),
    };
    assert_eq!(format!("{:?}", a.clone()), format!("{:?}", a));
    let l = Action::Launch {
        command: "firefox".to_string(),
        terminal: true,
        working_dir: Some("/tmp".to_string()),
    };
    assert_eq!(format!("{:?}", l.clone()), format!("{:?}", l));
}

#[test]
fn test_search_on_fixture() {}
