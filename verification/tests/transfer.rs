use base64::Engine;
use lupa::actions::{
    copy_to_clipboard, execute_action, execute_secondary_action, fallback_plan, hit_file_path,
    ActionPlan,
};
use lupa::mime::{capitalize, human_kind, mime_to_icon_name, titleize_subtype, MimeType};
use lupa::model::{Action, Category, DocId, Hit};
use lupa::transfer::{
    attachment_path, attachments_dir, decode_attachment, sanitize_filename,
    sweep_stale_attachments, try_sanitize_filename, DecodeError, ATTACHMENT_MAX_AGE_NS,
};
use lupa::uri::file_uri;

#[test]
fn test_file_uri_ascii() {
    assert_eq!(file_uri("/tmp/foo.txt"), "file:///tmp/foo.txt");
}

#[test]
fn test_file_uri_spaces() {
    assert_eq!(
        file_uri("/tmp/hello world.txt"),
        "file:///tmp/hello%20world.txt"
    );
}

#[test]
fn test_file_uri_utf8() {
    assert_eq!(
        file_uri("/home/u/Caf\u{e9}.pdf"),
        "file:///home/u/Caf%C3%A9.pdf"
    );
}

#[test]
fn test_file_uri_preserves_separators() {
    let result = file_uri("/a/b/c/d/e.txt");
    assert!(!result.contains("%2F"));
    assert!(!result.contains("%2f"));
    assert_eq!(result, "file:///a/b/c/d/e.txt");
}

#[test]
fn test_decode_attachment_base64() {
    let plain = b"Hello World";
    let encoded = base64::engine::general_purpose::STANDARD.encode(plain);
    let decoded = decode_attachment(&encoded.into_bytes(), "base64").unwrap();
    assert_eq!(decoded, plain);
}

#[test]
fn test_decode_attachment_base64_strips_whitespace() {
    let raw = b"SGVs\r\nbG8=";
    let decoded = decode_attachment(&raw.to_vec(), "base64").unwrap();
    assert_eq!(decoded, b"Hello");
}

#[test]
fn test_decode_attachment_base64_case_insensitive_encoding_label() {
    let raw = b"SGVsbG8=";
    let decoded = decode_attachment(&raw.to_vec(), "BASE64").unwrap();
    assert_eq!(decoded, b"Hello");
}

#[test]
fn test_decode_attachment_qp() {
    let decoded = decode_attachment(&b"Hello=20World".to_vec(), "quoted-printable").unwrap();
    assert_eq!(decoded, b"Hello World");
}

#[test]
fn test_decode_attachment_passthrough_variants() {
    for enc in ["7bit", "8bit", "binary", ""] {
        let decoded = decode_attachment(&b"Hello World".to_vec(), enc).unwrap();
        assert_eq!(decoded, b"Hello World", "encoding={enc}");
    }
}

#[test]
fn test_decode_attachment_unknown_encoding_errors() {
    let result = decode_attachment(&b"data".to_vec(), "rot13");
    assert!(result.is_err());
}

#[test]
fn test_sanitize_filename_strips_path_traversal() {
    let s = sanitize_filename("../../../etc/passwd");
    assert!(!s.contains('/'));
    assert!(!s.contains('\\'));
}

#[test]
fn test_sanitize_filename_strips_backslash_and_nul() {
    let s = sanitize_filename("foo\\bar\0baz");
    assert_eq!(s, "foobarbaz");
}

#[test]
fn test_sanitize_filename_dot_prefix_stripped() {
    assert_eq!(sanitize_filename(".hidden"), "hidden");
    assert_eq!(sanitize_filename("....multi"), "multi");
}

#[test]
fn test_sanitize_filename_empty_falls_back() {
    assert_eq!(sanitize_filename(""), "attachment");
    assert_eq!(sanitize_filename("///"), "attachment");
    assert_eq!(sanitize_filename("..."), "attachment");
}

#[test]
fn test_sanitize_filename_length_cap() {
    let long = "a".repeat(500);
    let out = sanitize_filename(&long);
    assert!(out.len() <= 200);
}

#[test]
fn test_sweep_stale_attachments() {
    let swept = sweep_stale_attachments(&vec![Some(150_000_000), Some(0)], 75_000_000);
    assert!(swept.contains(&0), "stale file should be swept");
    assert!(!swept.contains(&1), "fresh file should survive");
}

#[test]
fn test_sweep_stale_attachments_nonexistent_dir_is_noop() {
    assert!(sweep_stale_attachments(&Vec::new(), 1_000_000_000).is_empty());
}

#[test]
fn errors_of_decoding() {
    let err = |raw: &[u8], enc: &str| decode_attachment(&raw.to_vec(), enc).unwrap_err();
    let bad = err(b"!!!", "base64");
    assert!(matches!(bad, DecodeError::BadBase64(_)));
    let decoded = base64::Engine::decode(&base64::engine::general_purpose::STANDARD, "!!!");
    assert_eq!(bad.message(), decoded.unwrap_err().to_string());
    assert_eq!(decode_attachment(&b"a=3db=\xe9".to_vec(), "Quoted-Printable").unwrap(), b"a=b");
    match err(b"x", "ROT13") {
        DecodeError::Unsupported(e) => assert!(e.eq_ignore_ascii_case("rot13")),
        _ => panic!("expected an unsupported encoding"),
    }
    assert!(err(b"x", "rot13").message().contains("rot13"));
}

#[test]
fn names_that_are_too_long() {
    let cut = "\u{e9}".repeat(100) + "tail";
    assert_eq!(try_sanitize_filename(&cut), Some("\u{e9}".repeat(100)));
    let odd = "a".to_string() + &"\u{e9}".repeat(200);
    assert_eq!(try_sanitize_filename(&odd), None);
    assert_eq!(try_sanitize_filename("short.txt"), Some("short.txt".to_string()));
}

#[test]
fn stale_files() {
    assert_eq!(ATTACHMENT_MAX_AGE_NS, 600_000_000_000);
    let ages = vec![Some(11), None, Some(10), Some(12)];
    assert_eq!(sweep_stale_attachments(&ages, 10), vec![0, 3]);
}

#[test]
fn places_of_attachments() {
    assert_eq!(attachments_dir(Some("/run/user/5"), 5), "/run/user/5/lupa/attachments");
    assert_eq!(attachments_dir(None, 5), "/tmp/lupa-5/lupa/attachments");
    assert_eq!(attachment_path("/d", 12, "a.txt"), "/d/12-a.txt");
}

#[test]
fn uri_of_reserved_characters() {
    assert_eq!(file_uri("/a~b_c-d.e/%?#"), "file:///a~b_c-d.e/%25%3F%23");
}

fn mime(input: &str) -> MimeType {
    MimeType::parse(input).unwrap()
}

#[test]
fn test_mime_to_icon_name_examples() {
    assert_eq!(
        mime_to_icon_name(&mime("application/pdf")),
        "application-pdf"
    );
    assert_eq!(mime_to_icon_name(&mime("text/plain")), "text-plain");
    assert_eq!(mime_to_icon_name(&mime("text/markdown")), "text-x-markdown");
    assert_eq!(
        mime_to_icon_name(&mime("text/x-markdown")),
        "text-x-markdown"
    );
    assert_eq!(mime_to_icon_name(&mime("image/png")), "image-x-generic");
    assert_eq!(mime_to_icon_name(&mime("image/jpeg")), "image-x-generic");
    assert_eq!(mime_to_icon_name(&mime("video/mp4")), "video-x-generic");
    assert_eq!(mime_to_icon_name(&mime("audio/mpeg")), "audio-x-generic");
    assert_eq!(
        mime_to_icon_name(&mime("application/zip")),
        "package-x-generic"
    );
    assert_eq!(
        mime_to_icon_name(&mime("application/x-tar")),
        "package-x-generic"
    );
    assert_eq!(
        mime_to_icon_name(&mime("application/x-gzip")),
        "package-x-generic"
    );
    assert_eq!(mime_to_icon_name(&mime("inode/directory")), "folder");
    assert_eq!(
        mime_to_icon_name(&mime("application/octet-stream")),
        "text-x-generic"
    );
}

#[test]
fn test_human_kind_examples() {
    assert_eq!(human_kind(&mime("application/pdf")), "PDF Document");
    assert_eq!(human_kind(&mime("text/plain")), "Text");
    assert_eq!(human_kind(&mime("text/markdown")), "Markdown");
    assert_eq!(human_kind(&mime("text/x-markdown")), "Markdown");
    assert_eq!(human_kind(&mime("image/png")), "Image");
    assert_eq!(human_kind(&mime("video/mp4")), "Video");
    assert_eq!(human_kind(&mime("audio/mpeg")), "Audio");
    assert_eq!(human_kind(&mime("application/json")), "JSON");
    assert_eq!(human_kind(&mime("application/zip")), "Archive");
    assert_eq!(human_kind(&mime("application/x-tar")), "Archive");
    assert_eq!(human_kind(&mime("inode/directory")), "Folder");
    assert_eq!(human_kind(&mime("text/html")), "Html");
    assert_eq!(human_kind(&mime("application/xml")), "Xml");
}

#[test]
fn media_types() {
    assert!(MimeType::parse("no type").is_none());
    let m = mime("Text/HTML; charset=utf-8");
    assert_eq!((m.type_.as_str(), m.subtype.as_str()), ("text", "html"));
    assert_eq!(m.essence, "text/html");
    assert_eq!(human_kind(&mime("application/vnd.ms-excel")), "Vnd Ms Excel");
    assert_eq!(titleize_subtype("---"), "Unknown");
    assert_eq!(titleize_subtype("x-a1.b"), "X A1 B");
    assert_eq!(capitalize(""), "");
    assert_eq!(capitalize("\u{df}en"), "SSen");
}

fn run(plan: ActionPlan) -> (String, Vec<String>, Option<String>) {
    match plan {
        ActionPlan::Run { program, args, dir } => (program, args, dir),
        _ => panic!("expected a program"),
    }
}

fn words(v: &[&str]) -> Vec<String> {
    v.iter().map(|s| s.to_string()).collect()
}

#[test]
fn plans_of_actions() {
    let launch = |command: &str, terminal: bool, dir: Option<&str>| Action::Launch {
        command: command.to_string(),
        terminal,
        working_dir: dir.map(|d| d.to_string()),
    };
    assert_eq!(
        run(execute_action(&launch("firefox -p x", false, Some("/w")), false)),
        ("firefox".to_string(), words(&["-p", "x"]), Some("/w".to_string()))
    );
    assert_eq!(
        run(execute_action(&launch("htop -d", true, None), false)),
        ("alacritty".to_string(), words(&["-e", "htop", "-d"]), None)
    );
    assert!(matches!(
        execute_action(&launch("  ", false, None), false),
        ActionPlan::Nothing
    ));
    let open = Action::OpenFile { path: "/a/b".to_string() };
    assert_eq!(
        run(execute_action(&open, false)),
        ("xdg-open".to_string(), words(&["/a/b"]), None)
    );
    let mail = Action::OpenMail { message_id: "m".to_string() };
    assert_eq!(
        run(execute_action(&mail, false)),
        ("thunderbird".to_string(), words(&["-message", "m"]), None)
    );
    let show = Action::ShowInFileManager { path: "/a/b".to_string() };
    assert_eq!(run(execute_action(&show, true)).0, "xdg-open");
    match execute_action(&show, false) {
        ActionPlan::ShowFile { path, fallback } => {
            assert_eq!(path, "/a/b");
            assert_eq!(fallback.as_deref(), Some("/a"));
        }
        _ => panic!("expected the file manager"),
    }
    assert_eq!(run(fallback_plan("/a")).1, words(&["/a"]));
    assert!(matches!(execute_secondary_action(&open, false), ActionPlan::Nothing));
    assert!(matches!(
        execute_secondary_action(&show, false),
        ActionPlan::ShowFile { .. }
    ));
    let parent = Action::OpenParentMail { message_id: "m".to_string() };
    assert_eq!(run(execute_secondary_action(&parent, false)).0, "thunderbird");
}

fn hit(action: Action) -> Hit<f32> {
    Hit {
        id: DocId("id".to_string()),
        category: Category::File,
        title: "title".to_string(),
        subtitle: String::new(),
        icon_name: None,
        kind_label: None,
        score: 1.0,
        action,
        extract_fail: false,
    }
}

#[test]
fn texts_for_the_clipboard() {
    let file = hit(Action::OpenFile { path: "/p".to_string() });
    assert_eq!(copy_to_clipboard(&file), "/p");
    assert_eq!(hit_file_path(&file), Some("/p".to_string()));
    let mail = hit(Action::OpenMail { message_id: "m".to_string() });
    assert_eq!(copy_to_clipboard(&mail), "m");
    assert_eq!(hit_file_path(&mail), None);
    let query = hit(Action::ReplaceQuery { q: "q".to_string() });
    assert_eq!(copy_to_clipboard(&query), "title");
}
