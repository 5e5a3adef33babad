use lupa::extract::{
    extract_contents, extract_plan, extractor_for_ext, extractor_for_ext_with_caps,
    odt_from_content, ooxml_from_entries, strip_xml_tags, CapabilityCell, Entry, ExtractError, Extraction, Extractor, ExtractorCapabilities,
    OdtExtractor, OoxmlExtractor, PdfExtractor, RtfExtractor, ShellDocExtractor,
};
use lupa::shell::TimeLimit;
use std::io::Write;

#[test]
fn test_strip_xml_tags() {
    assert_eq!(
        strip_xml_tags("<root>hello <b>world</b></root>"),
        "hello world"
    );
}

#[test]
fn test_strip_xml_tags_empty() {
    assert_eq!(strip_xml_tags(""), "");
}

#[test]
fn test_strip_xml_tags_only_tags() {
    assert_eq!(strip_xml_tags("<a><b><c></c></b></a>"), "");
}

#[test]
fn test_strip_xml_tags_no_tags() {
    assert_eq!(strip_xml_tags("plain text"), "plain text");
}

#[test]
fn test_strip_xml_tags_nested() {
    assert_eq!(
        strip_xml_tags("<p>hello <span>nested <b>deep</b></span> world</p>"),
        "hello nested deep world"
    );
}

#[test]
fn test_strip_xml_tags_with_attributes() {
    assert_eq!(
        strip_xml_tags("<div class='foo' id='bar'>content</div>"),
        "content"
    );
}

#[test]
fn test_extractor_for_ext_known_types() {
    let cell = CapabilityCell::default();
    assert!(extractor_for_ext("pdf", &cell).is_some());
    assert!(extractor_for_ext("docx", &cell).is_some());
    assert!(extractor_for_ext("xlsx", &cell).is_some());
    assert!(extractor_for_ext("pptx", &cell).is_some());
    assert!(extractor_for_ext("odt", &cell).is_some());
    assert!(extractor_for_ext("rtf", &cell).is_some());
}

#[test]
fn test_extractor_for_ext_unknown() {
    let cell = CapabilityCell::default();
    assert!(extractor_for_ext("xyz", &cell).is_none());
    assert!(extractor_for_ext("jpg", &cell).is_none());
    assert!(extractor_for_ext("png", &cell).is_none());
}

fn extracted(path: &str, bytes: &[u8]) -> String {
    let caps = ExtractorCapabilities::all_available_no_timeout();
    match extract_contents(&extract_plan(path, &caps), &bytes.to_vec()) {
        Extraction::Done(r) => r.unwrap(),
        Extraction::NeedsTool { .. } => panic!("a tool is needed"),
    }
}

#[test]
fn test_extract_text_file_utf8() {
    let result = extracted("/tmp/x/test.txt", b"hello utf8 world");
    assert!(result.contains("hello"));
    assert_eq!(result, "hello utf8 world");
}

#[test]
fn test_extract_path_unknown_ext() {
    let result = extracted("/tmp/x/test.xyz", b"some binary data");
    assert_eq!(result, "");
}

#[test]
fn test_magic_sniff_readme_indexed() {
    let content = extracted("/tmp/x/README", b"Hello README content");
    assert!(content.contains("Hello README"));
}

#[test]
fn test_magic_sniff_makefile_indexed() {
    let content = extracted("/tmp/x/Makefile", b"all:\n\techo hi\n");
    assert!(content.contains("echo hi"));
}

#[test]
fn test_magic_sniff_binary_skipped() {
    assert_eq!(extracted("/tmp/x/blob", b"abc\0def\0binary"), "");
}

#[test]
fn test_magic_sniff_empty_file() {
    assert_eq!(extracted("/tmp/x/EMPTY", b""), "");
}

#[test]
fn test_magic_sniff_non_utf8_skipped() {
    assert_eq!(extracted("/tmp/x/latin1bin", b"\xff\xfe\xfd"), "");
}

#[test]
fn test_extractor_for_ext_respects_caps_struct() {
    let caps = ExtractorCapabilities {
        timeout: TimeLimit::from_secs(15),
        has_pdftotext: false,
        has_antiword: false,
        has_catdoc: false,
        has_libreoffice: false,
    };
    assert!(extractor_for_ext_with_caps("pdf", &caps).is_none());
    assert!(extractor_for_ext_with_caps("doc", &caps).is_none());
    assert!(extractor_for_ext_with_caps("xls", &caps).is_none());
    assert!(extractor_for_ext_with_caps("ppt", &caps).is_none());
    assert!(extractor_for_ext_with_caps("docx", &caps).is_some());
    assert!(extractor_for_ext_with_caps("odt", &caps).is_some());
    assert!(extractor_for_ext_with_caps("rtf", &caps).is_some());
}

#[test]
fn test_extractor_for_ext_all_available_no_timeout() {
    let caps = ExtractorCapabilities::all_available_no_timeout();
    assert!(extractor_for_ext_with_caps("pdf", &caps).is_some());
    assert!(extractor_for_ext_with_caps("doc", &caps).is_some());
    assert!(extractor_for_ext_with_caps("rtf", &caps).is_some());
    assert!(extractor_for_ext_with_caps("xyz", &caps).is_none());
}

#[test]
fn second_capabilities_are_ignored() {
    let mut cell = CapabilityCell::default();
    let mut caps = ExtractorCapabilities::all_available_no_timeout();
    caps.has_pdftotext = false;
    assert!(cell.init_capabilities(caps));
    assert!(!cell.init_capabilities(ExtractorCapabilities::all_available_no_timeout()));
    assert!(extractor_for_ext("pdf", &cell).is_none());
    assert!(!cell.capabilities().has_pdftotext);
}

#[test]
fn extension_is_taken_in_lower_case() {
    assert_eq!(extracted("/tmp/NOTES.TXT", b"shout"), "shout");
    assert_eq!(extracted("/tmp/.txt", b"dot file"), "dot file");
}

#[test]
fn text_that_is_no_utf8_is_decoded_by_guess() {
    // "na\xefve caf\xe9" in Windows-1252.
    let bytes = b"The na\xefve caf\xe9 was closed, d\xe9j\xe0 vu, r\xe9sum\xe9.";
    assert_eq!(
        extracted("/tmp/x.txt", bytes),
        "The na\u{ef}ve caf\u{e9} was closed, d\u{e9}j\u{e0} vu, r\u{e9}sum\u{e9}."
    );
}

#[test]
fn sniff_looks_at_the_first_bytes_alone() {
    let mut bytes = vec![b'a'; 8192];
    bytes.push(0);
    bytes.push(b'z');
    let text = extracted("/tmp/LONG", &bytes);
    assert_eq!(text.len(), 8194);
    let mut split = vec![b'a'; 8191];
    split.extend_from_slice("\u{e9}".as_bytes());
    assert_eq!(extracted("/tmp/SPLIT", &split), "");
}

#[test]
fn tools_are_asked_for() {
    let caps = ExtractorCapabilities {
        timeout: TimeLimit { secs: 9, nanos: 5 },
        ..ExtractorCapabilities::all_available_no_timeout()
    };
    for ext in ["pdf", "doc", "xls", "ppt"] {
        let plan = extract_plan(&format!("/tmp/a.{ext}"), &caps);
        match extract_contents(&plan, &Vec::new()) {
            Extraction::NeedsTool { ext: e, runner } => {
                assert_eq!(e, ext);
                assert_eq!(runner.timeout, TimeLimit { secs: 9, nanos: 5 });
            }
            Extraction::Done(_) => panic!("no tool for {ext}"),
        }
    }
}

#[test]
fn mime_types_of_the_extractors() {
    assert_eq!(PdfExtractor::new(TimeLimit::from_secs(1)).mime_types(), vec!["application/pdf"]);
    assert_eq!(ShellDocExtractor::new(TimeLimit::from_secs(1)).mime_types(), vec!["application/msword"]);
    assert_eq!(RtfExtractor.mime_types(), vec!["application/rtf"]);
    assert_eq!(
        OdtExtractor.mime_types(),
        vec!["application/vnd.oasis.opendocument.text"]
    );
    assert_eq!(OoxmlExtractor.mime_types().len(), 3);
}

fn done(x: Extraction) -> Result<String, ExtractError> {
    match x {
        Extraction::Done(r) => r,
        Extraction::NeedsTool { .. } => panic!("a tool is needed"),
    }
}

fn archive(entries: &[(&str, &str)]) -> Vec<u8> {
    let mut w = zip::ZipWriter::new(std::io::Cursor::new(Vec::new()));
    for (name, text) in entries {
        w.start_file(*name, zip::write::SimpleFileOptions::default())
            .unwrap();
        w.write_all(text.as_bytes()).unwrap();
    }
    w.finish().unwrap().into_inner()
}

#[test]
fn office_documents() {
    let docx = archive(&[
        ("[Content_Types].xml", "<x>no</x>"),
        ("word/document.xml", "<w>  Dear <b>reader</b> </w>"),
    ]);
    assert_eq!(done(OoxmlExtractor.extract(&docx)), Ok("Dear reader".to_string()));
    let xlsx = archive(&[
        ("xl/worksheets/sheet1.xml", "<c>one </c>"),
        ("xl/other.xml", "<c>no</c>"),
        ("xl/worksheets/sheet2.xml", "<c>two</c>"),
        ("xl/worksheets/sheet2.bin", "<c>no</c>"),
        ("ppt/slides/s.xml", "<c>no</c>"),
    ]);
    assert_eq!(done(OoxmlExtractor.extract(&xlsx)), Ok("one two".to_string()));
    let pptx = archive(&[
        ("ppt/slides/slide1.xml", "<c>first</c>"),
        ("ppt/slides/slide2.xml", "<c> second</c>"),
    ]);
    assert_eq!(done(OoxmlExtractor.extract(&pptx)), Ok("first second".to_string()));
    assert_eq!(done(OoxmlExtractor.extract(&archive(&[]))), Ok(String::new()));
    assert_eq!(
        done(OoxmlExtractor.extract(&b"no archive".to_vec())),
        Err(ExtractError::BadArchive)
    );
}

fn entry(name: &str, text: Option<&str>) -> Entry {
    Entry { name: Some(name.to_string()), text: text.map(|t| t.to_string()) }
}

#[test]
fn office_documents_by_their_entries() {
    let sheet = || entry("xl/worksheets/a.xml", Some("<v>12</v>"));
    let slide = || entry("ppt/slides/a.xml", Some("<v>s</v>"));
    let broken = || entry("ppt/slides/b.xml", None);
    let locked = || Entry { name: None, text: None };
    assert_eq!(
        ooxml_from_entries(&None, &vec![locked(), sheet(), slide(), broken(), sheet()]),
        Ok("1212".to_string())
    );
    assert_eq!(
        ooxml_from_entries(&None, &vec![slide(), broken()]),
        Err(ExtractError::BadEntry)
    );
    let doc = Some(Some("<w> x </w>".to_string()));
    assert_eq!(ooxml_from_entries(&doc, &vec![broken()]), Ok("x".to_string()));
    assert_eq!(ooxml_from_entries(&Some(None), &vec![sheet()]), Err(ExtractError::BadEntry));
    let empty = Some(Some("<w/>".to_string()));
    assert_eq!(ooxml_from_entries(&empty, &vec![slide()]), Ok("s".to_string()));
    assert_eq!(odt_from_content(None), Err(ExtractError::NoContent));
    assert_eq!(odt_from_content(Some(None)), Err(ExtractError::BadEntry));
}

#[test]
fn office_document_that_is_no_text() {
    let mut w = zip::ZipWriter::new(std::io::Cursor::new(Vec::new()));
    w.start_file("word/document.xml", zip::write::SimpleFileOptions::default())
        .unwrap();
    w.write_all(b"\xff\xff").unwrap();
    let bytes = w.finish().unwrap().into_inner();
    assert_eq!(done(OoxmlExtractor.extract(&bytes)), Err(ExtractError::BadEntry));
}

#[test]
fn open_documents() {
    let odt = archive(&[("content.xml", "<t> text <b>here</b></t>")]);
    assert_eq!(done(OdtExtractor.extract(&odt)), Ok("text here".to_string()));
    assert_eq!(
        done(OdtExtractor.extract(&archive(&[("other.xml", "")]))),
        Err(ExtractError::NoContent)
    );
    assert_eq!(
        done(OdtExtractor.extract(&Vec::new())),
        Err(ExtractError::BadArchive)
    );
}

#[test]
fn rich_text() {
    let rtf = b"{\\rtf1 Hello\\~World\\par Next\\line last {\\b bold}}".to_vec();
    assert_eq!(
        done(RtfExtractor.extract(&rtf)),
        Ok("Hello World\nNext\nlast bold".to_string())
    );
    let latin = b"{\\rtf1 caf\xe9}".to_vec();
    assert_eq!(done(RtfExtractor.extract(&latin)), Ok("caf\u{e9}".to_string()));
}
