//! Text extraction: which way a file is read, and the formats that need no other program.
use crate::archive::{count_entries, name_at, open_archive, text_at, text_named};
use crate::decode::{extract_text_file, lowercase, sniff_text, SNIFF_LEN};
use crate::paths::extension;
use crate::rtf::rtf_text;
use crate::shell::{SystemRunner, TimeLimit};
use crate::text::{begins, chars_of, ends, same, trim};
use vstd::prelude::*;
use vstd::slice::slice_subrange;
use vstd::string::*;

verus! {

use crate::archive::{archive_bytes, archive_len, archive_valid, entry_name, entry_text, named_text};
use crate::decode::{file_text, looks_like_text, lowercase_of};
use crate::maildir::static_views;
use crate::paths::extension_of;
use crate::rtf::{rtf_tokens, tokens_text};
use crate::shell::whole_secs;
use crate::text::{ends_with, opt_view, starts_with, trimmed};

/// Why there is no text.
#[derive(Debug, Clone, Copy, PartialEq, Eq, Structural)]
pub enum ExtractError {
    /// The file is no archive.
    BadArchive,
    /// An entry of the archive cannot be read as text.
    BadEntry,
    /// The archive holds no `content.xml`.
    NoContent,
}

/// What an extractor makes of a file.
pub enum Extraction {
    /// The text, or why there is none.
    Done(Result<String, ExtractError>),
    /// A program has to read the file, from a copy with the given extension.
    NeedsTool { ext: &'static str, runner: SystemRunner },
}

/// The text, or why there is none, as a mathematical value.
pub open spec fn result_view(r: Result<String, ExtractError>) -> Result<Seq<char>, ExtractError> {
    match r {
        Ok(s) => Ok(s@),
        Err(e) => Err(e),
    }
}

/// Extracts text from the bytes of a file of one format.
pub trait Extractor {
    /// What the extractor makes of a file.
    fn extract(&self, bytes: &Vec<u8>) -> (r: Extraction);

    /// The types of file that the extractor is for.
    fn mime_types(&self) -> (r: Vec<&'static str>);
}

/// Which programs there are, and how long they may run.
#[derive(Debug, Clone, Copy, PartialEq, Eq, Structural)]
pub struct ExtractorCapabilities {
    pub timeout: TimeLimit,
    pub has_pdftotext: bool,
    pub has_antiword: bool,
    pub has_catdoc: bool,
    pub has_libreoffice: bool,
}

/// Every program there is, with no time limit.
pub open spec fn all_available() -> ExtractorCapabilities {
    ExtractorCapabilities {
        timeout: whole_secs(0),
        has_pdftotext: true,
        has_antiword: true,
        has_catdoc: true,
        has_libreoffice: true,
    }
}

impl ExtractorCapabilities {
    /// Every program there is, with no time limit.
    pub fn all_available_no_timeout() -> (r: Self)
        ensures
            r == all_available(),
    {
        ExtractorCapabilities {
            timeout: TimeLimit::from_secs(0),
            has_pdftotext: true,
            has_antiword: true,
            has_catdoc: true,
            has_libreoffice: true,
        }
    }
}

/// The capabilities that were found at start, once they were.
pub struct CapabilityCell {
    found: Option<ExtractorCapabilities>,
}

impl Default for CapabilityCell {
    fn default() -> (r: Self)
        ensures
            r.found() is None,
    {
        CapabilityCell { found: None }
    }
}

/// What is known of the programs once `caps` were found: the first that was found stays.
pub open spec fn first_found(
    found: Option<ExtractorCapabilities>,
    caps: ExtractorCapabilities,
) -> Option<ExtractorCapabilities> {
    if found is None {
        Some(caps)
    } else {
        found
    }
}

/// The programs to reckon with: those that were found, else all of them.
pub open spec fn known_capabilities(found: Option<ExtractorCapabilities>) -> ExtractorCapabilities {
    match found {
        Some(c) => c,
        None => all_available(),
    }
}

impl CapabilityCell {
    /// The capabilities that were found.
    pub closed spec fn found(&self) -> Option<ExtractorCapabilities> {
        self.found
    }

    /// Keeps the capabilities that were found, unless some are kept already; says whether
    /// it did.
    pub fn init_capabilities(&mut self, caps: ExtractorCapabilities) -> (r: bool)
        ensures
            r == (old(self).found() is None),
            final(self).found() == first_found(old(self).found(), caps),
    {
        if self.found.is_some() {
            return false;
        }
        self.found = Some(caps);
        true
    }

    /// The capabilities that were found; until then every program is taken to be there.
    pub fn capabilities(&self) -> (r: ExtractorCapabilities)
        ensures
            r == known_capabilities(self.found()),
    {
        match self.found {
            Some(c) => c,
            None => ExtractorCapabilities::all_available_no_timeout(),
        }
    }
}

/// PDF documents.
#[derive(Debug, Clone, Copy, PartialEq, Eq, Structural)]
pub struct PdfExtractor {
    pub runner: SystemRunner,
}

/// Documents, sheets and slides of current office programs.
#[derive(Debug, Clone, Copy, PartialEq, Eq, Structural)]
pub struct OoxmlExtractor;

/// OpenDocument texts.
#[derive(Debug, Clone, Copy, PartialEq, Eq, Structural)]
pub struct OdtExtractor;

/// RTF documents.
#[derive(Debug, Clone, Copy, PartialEq, Eq, Structural)]
pub struct RtfExtractor;

/// Word documents of old office programs.
#[derive(Debug, Clone, Copy, PartialEq, Eq, Structural)]
pub struct ShellDocExtractor {
    pub runner: SystemRunner,
}

/// Excel sheets of old office programs.
#[derive(Debug, Clone, Copy, PartialEq, Eq, Structural)]
pub struct ShellXlsExtractor {
    pub runner: SystemRunner,
}

/// PowerPoint slides of old office programs.
#[derive(Debug, Clone, Copy, PartialEq, Eq, Structural)]
pub struct ShellPptExtractor {
    pub runner: SystemRunner,
}

impl PdfExtractor {
    /// An extractor whose program may run for the given time.
    pub fn new(timeout: TimeLimit) -> (r: Self)
        ensures
            r.runner.timeout == timeout,
    {
        PdfExtractor { runner: SystemRunner { timeout } }
    }
}

impl ShellDocExtractor {
    /// An extractor whose program may run for the given time.
    pub fn new(timeout: TimeLimit) -> (r: Self)
        ensures
            r.runner.timeout == timeout,
    {
        ShellDocExtractor { runner: SystemRunner { timeout } }
    }
}

impl ShellXlsExtractor {
    /// An extractor whose program may run for the given time.
    pub fn new(timeout: TimeLimit) -> (r: Self)
        ensures
            r.runner.timeout == timeout,
    {
        ShellXlsExtractor { runner: SystemRunner { timeout } }
    }
}

impl ShellPptExtractor {
    /// An extractor whose program may run for the given time.
    pub fn new(timeout: TimeLimit) -> (r: Self)
        ensures
            r.runner.timeout == timeout,
    {
        ShellPptExtractor { runner: SystemRunner { timeout } }
    }
}

/// Whether a program named by its extension has to read the file.
pub open spec fn needs_tool(x: Extraction, ext: Seq<char>, runner: SystemRunner) -> bool {
    x matches Extraction::NeedsTool { ext: e, runner: s } && e@ == ext && s == runner
}

impl Extractor for PdfExtractor {
    fn extract(&self, bytes: &Vec<u8>) -> (r: Extraction)
        ensures
            needs_tool(r, "pdf"@, self.runner),
    {
        Extraction::NeedsTool { ext: "pdf", runner: self.runner }
    }

    fn mime_types(&self) -> (r: Vec<&'static str>)
        ensures
            static_views(r@) == seq!["application/pdf"@],
    {
        one("application/pdf")
    }
}

impl Extractor for ShellDocExtractor {
    fn extract(&self, bytes: &Vec<u8>) -> (r: Extraction)
        ensures
            needs_tool(r, "doc"@, self.runner),
    {
        Extraction::NeedsTool { ext: "doc", runner: self.runner }
    }

    fn mime_types(&self) -> (r: Vec<&'static str>)
        ensures
            static_views(r@) == seq!["application/msword"@],
    {
        one("application/msword")
    }
}

impl Extractor for ShellXlsExtractor {
    fn extract(&self, bytes: &Vec<u8>) -> (r: Extraction)
        ensures
            needs_tool(r, "xls"@, self.runner),
    {
        Extraction::NeedsTool { ext: "xls", runner: self.runner }
    }

    fn mime_types(&self) -> (r: Vec<&'static str>)
        ensures
            static_views(r@) == seq!["application/vnd.ms-excel"@],
    {
        one("application/vnd.ms-excel")
    }
}

impl Extractor for ShellPptExtractor {
    fn extract(&self, bytes: &Vec<u8>) -> (r: Extraction)
        ensures
            needs_tool(r, "ppt"@, self.runner),
    {
        Extraction::NeedsTool { ext: "ppt", runner: self.runner }
    }

    fn mime_types(&self) -> (r: Vec<&'static str>)
        ensures
            static_views(r@) == seq!["application/vnd.ms-powerpoint"@],
    {
        one("application/vnd.ms-powerpoint")
    }
}

/// The list of one text.
fn one(s: &'static str) -> (r: Vec<&'static str>)
    ensures
        static_views(r@) == seq![s@],
{
    let mut v: Vec<&'static str> = Vec::new();
    v.push(s);
    assert(static_views(v@) =~= seq![s@]);
    v
}

// --- Tags ---

/// Whether the text ends inside a tag.
pub open spec fn ends_in_tag(s: Seq<char>) -> bool
    decreases s.len(),
{
    if s.len() == 0 {
        false
    } else if s.last() == '<' {
        true
    } else if s.last() == '>' {
        false
    } else {
        ends_in_tag(s.drop_last())
    }
}

/// The text outside the tags.
pub open spec fn untagged(s: Seq<char>) -> Seq<char>
    decreases s.len(),
{
    if s.len() == 0 {
        Seq::empty()
    } else {
        let before = untagged(s.drop_last());
        if s.last() == '<' || s.last() == '>' || ends_in_tag(s.drop_last()) {
            before
        } else {
            before.push(s.last())
        }
    }
}

/// The text outside the tags.
pub fn strip_xml_tags(input: &str) -> (r: String)
    ensures
        r@ == untagged(input@),
{
    let cs = chars_of(input);
    let mut in_tag = false;
    let mut clean = String::new();
    let mut i: usize = 0;
    while i < cs.len()
        invariant
            i <= cs@.len(),
            cs@ == input@,
            in_tag == ends_in_tag(cs@.take(i as int)),
            clean@ =~= untagged(cs@.take(i as int)),
        decreases cs.len() - i,
    {
        let c = cs[i];
        proof {
            assert(cs@.take(i + 1).drop_last() =~= cs@.take(i as int));
            assert(cs@.take(i + 1).last() == c);
        }
        if c == '<' {
            in_tag = true;
        } else if c == '>' {
            in_tag = false;
        } else if !in_tag {
            clean.push(c);
        }
        i = i + 1;
    }
    assert(cs@.take(i as int) =~= input@);
    clean
}

/// No tag is left, and stripping again changes nothing.
pub proof fn law_untagged(s: Seq<char>)
    ensures
        !untagged(s).contains('<') && !untagged(s).contains('>'),
        untagged(untagged(s)) == untagged(s),
{
    lemma_untagged_clean(s);
    law_untagged_plain(untagged(s));
}

proof fn lemma_untagged_clean(s: Seq<char>)
    ensures
        !untagged(s).contains('<') && !untagged(s).contains('>'),
    decreases s.len(),
{
    if s.len() > 0 {
        lemma_untagged_clean(s.drop_last());
        let u = untagged(s.drop_last());
        assert(forall|i: int| 0 <= i < u.len() ==> u.contains(#[trigger] u[i]));
    }
}

/// A text without angle brackets stays as it is.
pub proof fn law_untagged_plain(s: Seq<char>)
    requires
        !s.contains('<') && !s.contains('>'),
    ensures
        untagged(s) == s,
    decreases s.len(),
{
    lemma_plain(s);
}

proof fn lemma_plain(s: Seq<char>)
    requires
        !s.contains('<') && !s.contains('>'),
    ensures
        untagged(s) == s,
        !ends_in_tag(s),
    decreases s.len(),
{
    if s.len() > 0 {
        assert(s.contains(s[s.len() - 1]));
        let t = s.drop_last();
        assert(!t.contains('<') && !t.contains('>')) by {
            assert(forall|i: int| 0 <= i < t.len() ==> #[trigger] t[i] == s[i] && s.contains(s[i]));
        }
        lemma_plain(t);
        assert(s =~= t.push(s.last()));
    } else {
        assert(s =~= Seq::<char>::empty());
    }
}

// --- Archives ---

/// Whether an entry is an XML file below the given directory.
pub open spec fn is_part(name: Seq<char>, dir: Seq<char>) -> bool {
    starts_with(name, dir) && ends_with(name, ".xml"@)
}

/// An entry of an archive: its name, where it can be opened, and its text, where that was read
/// and could be.
pub struct Entry {
    pub name: Option<String>,
    pub text: Option<String>,
}

/// What an entry holds.
pub struct EntryView {
    pub name: Option<Seq<char>>,
    pub text: Option<Seq<char>>,
}

impl View for Entry {
    type V = EntryView;

    open spec fn view(&self) -> EntryView {
        EntryView { name: opt_view(self.name), text: opt_view(self.text) }
    }
}

/// What the entries of a list hold.
pub open spec fn entry_views(v: Seq<Entry>) -> Seq<EntryView> {
    Seq::new(v.len(), |i: int| v[i]@)
}

/// The text outside the tags in those entries that are XML files below the given directory;
/// `None` where one of them has no text.
pub open spec fn parts_text(entries: Seq<EntryView>, dir: Seq<char>) -> Option<Seq<char>>
    decreases entries.len(),
{
    if entries.len() == 0 {
        Some(Seq::empty())
    } else {
        let last = entries.last();
        match parts_text(entries.drop_last(), dir) {
            None => None,
            Some(before) => match last.name {
                Some(name) => if is_part(name, dir) {
                    match last.text {
                        Some(t) => Some(before + untagged(t)),
                        None => None,
                    }
                } else {
                    Some(before)
                },
                None => Some(before),
            },
        }
    }
}

/// The text outside the tags of the main part of a text document, or nothing where there is
/// no such part; `None` where it cannot be read.
pub open spec fn document_text(document: Option<Option<Seq<char>>>) -> Option<Seq<char>> {
    match document {
        Some(Some(t)) => Some(untagged(t)),
        Some(None) => None,
        None => Some(Seq::empty()),
    }
}

/// The text of an office document with the given main part and entries: that of the text
/// document, else that of the sheets, else that of the slides.
pub open spec fn ooxml_of(document: Option<Option<Seq<char>>>, entries: Seq<EntryView>) -> Result<
    Seq<char>,
    ExtractError,
> {
    match document_text(document) {
        None => Err(ExtractError::BadEntry),
        Some(doc) => if doc.len() > 0 {
            Ok(trimmed(doc))
        } else {
            match parts_text(entries, "xl/worksheets/"@) {
                None => Err(ExtractError::BadEntry),
                Some(sheets) => if sheets.len() > 0 {
                    Ok(trimmed(sheets))
                } else {
                    match parts_text(entries, "ppt/slides/"@) {
                        None => Err(ExtractError::BadEntry),
                        Some(slides) => Ok(trimmed(slides)),
                    }
                },
            }
        },
    }
}

/// Whether an entry is a sheet or a slide.
pub open spec fn is_office_part(name: Seq<char>) -> bool {
    is_part(name, "xl/worksheets/"@) || is_part(name, "ppt/slides/"@)
}

/// An entry of the archive made of the bytes; the text is that of sheets and slides alone.
pub open spec fn office_entry(bytes: Seq<u8>, i: nat) -> EntryView {
    EntryView {
        name: entry_name(bytes, i),
        text: (match entry_name(bytes, i) {
            Some(name) => if is_office_part(name) {
                entry_text(bytes, i)
            } else {
                None
            },
            None => None,
        }),
    }
}

/// The entries of the archive made of the bytes.
pub open spec fn office_entries(bytes: Seq<u8>) -> Seq<EntryView> {
    Seq::new(archive_len(bytes), |i: int| office_entry(bytes, i as nat))
}

/// The text of an office document.
pub open spec fn ooxml_text(bytes: Seq<u8>) -> Result<Seq<char>, ExtractError> {
    if !archive_valid(bytes) {
        Err(ExtractError::BadArchive)
    } else {
        ooxml_of(named_text(bytes, "word/document.xml"@), office_entries(bytes))
    }
}

/// The text of an OpenDocument text with the given content.
pub open spec fn odt_of(content: Option<Option<Seq<char>>>) -> Result<Seq<char>, ExtractError> {
    match content {
        None => Err(ExtractError::NoContent),
        Some(None) => Err(ExtractError::BadEntry),
        Some(Some(t)) => Ok(trimmed(untagged(t))),
    }
}

/// The text of an OpenDocument text.
pub open spec fn odt_text(bytes: Seq<u8>) -> Result<Seq<char>, ExtractError> {
    if !archive_valid(bytes) {
        Err(ExtractError::BadArchive)
    } else {
        odt_of(named_text(bytes, "content.xml"@))
    }
}

/// What looking for an entry gave, as a mathematical value.
pub open spec fn found_view(o: Option<Option<String>>) -> Option<Option<Seq<char>>> {
    match o {
        Some(t) => Some(opt_view(t)),
        None => None,
    }
}

/// Whether an entry is an XML file below the given directory.
fn is_part_of(name: &str, dir: &str) -> (r: bool)
    ensures
        r == is_part(name@, dir@),
{
    begins(name, dir) && ends(name, ".xml")
}

/// Collects the text of the XML files below a directory.
pub fn join_parts(entries: &Vec<Entry>, dir: &str) -> (r: Option<String>)
    ensures
        opt_view(r) == parts_text(entry_views(entries@), dir@),
{
    let ghost all = entry_views(entries@);
    let mut text = String::new();
    let mut i: usize = 0;
    assert(all.take(0) =~= Seq::<EntryView>::empty());
    while i < entries.len()
        invariant
            i <= entries@.len(),
            all == entry_views(entries@),
            parts_text(all.take(i as int), dir@) == Some(text@),
        decreases entries.len() - i,
    {
        proof {
            assert(all.take(i + 1).drop_last() =~= all.take(i as int));
            assert(all.take(i + 1).last() == entries@[i as int]@);
        }
        match &entries[i].name {
            Some(name) => {
                if is_part_of(name.as_str(), dir) {
                    match &entries[i].text {
                        Some(content) => {
                            text.append(strip_xml_tags(content.as_str()).as_str());
                        },
                        None => {
                            proof {
                                lemma_parts_none(all, dir@, i + 1);
                            }
                            return None;
                        },
                    }
                }
            },
            None => {},
        }
        i = i + 1;
    }
    assert(all.take(i as int) =~= all);
    Some(text)
}

proof fn lemma_parts_none(entries: Seq<EntryView>, dir: Seq<char>, n: int)
    requires
        0 <= n <= entries.len(),
        parts_text(entries.take(n), dir) is None,
    ensures
        parts_text(entries, dir) is None,
    decreases entries.len() - n,
{
    if n < entries.len() {
        assert(entries.take(n + 1).drop_last() =~= entries.take(n));
        lemma_parts_none(entries, dir, n + 1);
    } else {
        assert(entries.take(n) =~= entries);
    }
}

/// The text of an office document, out of its main part, where there is one, and its entries.
pub fn ooxml_from_entries(document: &Option<Option<String>>, entries: &Vec<Entry>) -> (r: Result<
    String,
    ExtractError,
>)
    ensures
        result_view(r) == ooxml_of(found_view(*document), entry_views(entries@)),
{
    let doc = match document {
        Some(Some(content)) => strip_xml_tags(content.as_str()),
        Some(None) => {
            return Err(ExtractError::BadEntry);
        },
        None => String::new(),
    };
    assert(document_text(found_view(*document)) == Some(doc@));
    if !doc.as_str().is_empty() {
        return Ok(trim(doc.as_str()));
    }
    match join_parts(entries, "xl/worksheets/") {
        Some(sheets) => {
            if !sheets.as_str().is_empty() {
                return Ok(trim(sheets.as_str()));
            }
        },
        None => {
            return Err(ExtractError::BadEntry);
        },
    }
    match join_parts(entries, "ppt/slides/") {
        Some(slides) => Ok(trim(slides.as_str())),
        None => Err(ExtractError::BadEntry),
    }
}

/// Reads the names of the entries of an archive, and the text of the sheets and slides.
fn read_entries(a: &mut zip::ZipArchive<std::io::Cursor<Vec<u8>>>) -> (r: Vec<Entry>)
    ensures
        archive_bytes(*final(a)) == archive_bytes(*old(a)),
        entry_views(r@) == office_entries(archive_bytes(*old(a))),
{
    let ghost bytes = archive_bytes(*a);
    let n = count_entries(a);
    let mut v: Vec<Entry> = Vec::new();
    let mut i: usize = 0;
    while i < n
        invariant
            i <= n,
            n == archive_len(bytes),
            bytes == archive_bytes(*old(a)),
            archive_bytes(*a) == bytes,
            entry_views(v@) =~= office_entries(bytes).take(i as int),
        decreases n - i,
    {
        let name = name_at(a, i);
        let text = match &name {
            Some(s) => {
                if is_part_of(s.as_str(), "xl/worksheets/") || is_part_of(
                    s.as_str(),
                    "ppt/slides/",
                ) {
                    text_at(a, i)
                } else {
                    None
                }
            },
            None => None,
        };
        let ghost before = v@;
        v.push(Entry { name, text });
        assert(v@.last()@ == office_entry(bytes, i as nat));
        assert(entry_views(v@) =~= entry_views(before).push(v@.last()@));
        i = i + 1;
    }
    assert(office_entries(bytes).take(n as int) =~= office_entries(bytes));
    v
}

/// The text of an office document.
pub fn extract_ooxml(bytes: &Vec<u8>) -> (r: Result<String, ExtractError>)
    ensures
        result_view(r) == ooxml_text(bytes@),
{
    let copy = bytes.clone();
    assert(copy@ =~= bytes@);
    match open_archive(copy) {
        Some(a) => {
            let mut archive = a;
            let document = text_named(&mut archive, "word/document.xml");
            let entries = read_entries(&mut archive);
            ooxml_from_entries(&document, &entries)
        },
        None => Err(ExtractError::BadArchive),
    }
}

/// The text of an OpenDocument text, out of its content, where there is one.
pub fn odt_from_content(content: Option<Option<String>>) -> (r: Result<String, ExtractError>)
    ensures
        result_view(r) == odt_of(found_view(content)),
{
    match content {
        Some(Some(t)) => Ok(trim(strip_xml_tags(t.as_str()).as_str())),
        Some(None) => Err(ExtractError::BadEntry),
        None => Err(ExtractError::NoContent),
    }
}

/// The text of an OpenDocument text.
pub fn extract_odt(bytes: &Vec<u8>) -> (r: Result<String, ExtractError>)
    ensures
        result_view(r) == odt_text(bytes@),
{
    let copy = bytes.clone();
    assert(copy@ =~= bytes@);
    match open_archive(copy) {
        Some(a) => {
            let mut archive = a;
            odt_from_content(text_named(&mut archive, "content.xml"))
        },
        None => Err(ExtractError::BadArchive),
    }
}

impl Extractor for OoxmlExtractor {
    fn extract(&self, bytes: &Vec<u8>) -> (r: Extraction)
        ensures
            r matches Extraction::Done(x) && result_view(x) == ooxml_text(bytes@),
    {
        Extraction::Done(extract_ooxml(bytes))
    }

    fn mime_types(&self) -> (r: Vec<&'static str>)
        ensures
            static_views(r@) == seq![
                "application/vnd.openxmlformats-officedocument.wordprocessingml.document"@,
                "application/vnd.openxmlformats-officedocument.spreadsheetml.sheet"@,
                "application/vnd.openxmlformats-officedocument.presentationml.presentation"@,
            ],
    {
        let mut v: Vec<&'static str> = Vec::new();
        v.push("application/vnd.openxmlformats-officedocument.wordprocessingml.document");
        v.push("application/vnd.openxmlformats-officedocument.spreadsheetml.sheet");
        v.push("application/vnd.openxmlformats-officedocument.presentationml.presentation");
        v
    }
}

impl Extractor for OdtExtractor {
    fn extract(&self, bytes: &Vec<u8>) -> (r: Extraction)
        ensures
            r matches Extraction::Done(x) && result_view(x) == odt_text(bytes@),
    {
        Extraction::Done(extract_odt(bytes))
    }

    fn mime_types(&self) -> (r: Vec<&'static str>)
        ensures
            static_views(r@) == seq!["application/vnd.oasis.opendocument.text"@],
    {
        one("application/vnd.oasis.opendocument.text")
    }
}

/// The text of an RTF document.
pub open spec fn rtf_result(bytes: Seq<u8>) -> Result<Seq<char>, ExtractError> {
    Ok(tokens_text(rtf_tokens(bytes)))
}

impl Extractor for RtfExtractor {
    fn extract(&self, bytes: &Vec<u8>) -> (r: Extraction)
        ensures
            r matches Extraction::Done(x) && result_view(x) == rtf_result(bytes@),
    {
        Extraction::Done(Ok(rtf_text(bytes.as_slice())))
    }

    fn mime_types(&self) -> (r: Vec<&'static str>)
        ensures
            static_views(r@) == seq!["application/rtf"@],
    {
        one("application/rtf")
    }
}

// --- Which way a file is read ---

/// An extractor of any format.
#[derive(Debug, Clone, Copy, PartialEq, Eq, Structural)]
pub enum AnyExtractor {
    Pdf(PdfExtractor),
    Ooxml(OoxmlExtractor),
    Odt(OdtExtractor),
    Rtf(RtfExtractor),
    Doc(ShellDocExtractor),
    Xls(ShellXlsExtractor),
    Ppt(ShellPptExtractor),
}

/// The extractor for an extension, given which programs there are.
pub open spec fn extractor_of(ext: Seq<char>, caps: ExtractorCapabilities) -> Option<AnyExtractor> {
    let runner = SystemRunner { timeout: caps.timeout };
    if ext == "pdf"@ && caps.has_pdftotext {
        Some(AnyExtractor::Pdf(PdfExtractor { runner }))
    } else if ext == "docx"@ || ext == "xlsx"@ || ext == "pptx"@ {
        Some(AnyExtractor::Ooxml(OoxmlExtractor))
    } else if ext == "odt"@ {
        Some(AnyExtractor::Odt(OdtExtractor))
    } else if ext == "rtf"@ {
        Some(AnyExtractor::Rtf(RtfExtractor))
    } else if ext == "doc"@ && caps.has_antiword {
        Some(AnyExtractor::Doc(ShellDocExtractor { runner }))
    } else if ext == "xls"@ && caps.has_catdoc {
        Some(AnyExtractor::Xls(ShellXlsExtractor { runner }))
    } else if ext == "ppt"@ && caps.has_libreoffice {
        Some(AnyExtractor::Ppt(ShellPptExtractor { runner }))
    } else {
        None
    }
}

/// The extractor for an extension, given which programs there are.
pub fn extractor_for_ext_with_caps(ext: &str, caps: &ExtractorCapabilities) -> (r: Option<
    AnyExtractor,
>)
    ensures
        r == extractor_of(ext@, *caps),
{
    if same(ext, "pdf") && caps.has_pdftotext {
        Some(AnyExtractor::Pdf(PdfExtractor::new(caps.timeout)))
    } else if same(ext, "docx") || same(ext, "xlsx") || same(ext, "pptx") {
        Some(AnyExtractor::Ooxml(OoxmlExtractor))
    } else if same(ext, "odt") {
        Some(AnyExtractor::Odt(OdtExtractor))
    } else if same(ext, "rtf") {
        Some(AnyExtractor::Rtf(RtfExtractor))
    } else if same(ext, "doc") && caps.has_antiword {
        Some(AnyExtractor::Doc(ShellDocExtractor::new(caps.timeout)))
    } else if same(ext, "xls") && caps.has_catdoc {
        Some(AnyExtractor::Xls(ShellXlsExtractor::new(caps.timeout)))
    } else if same(ext, "ppt") && caps.has_libreoffice {
        Some(AnyExtractor::Ppt(ShellPptExtractor::new(caps.timeout)))
    } else {
        None
    }
}

/// The extractor for an extension, given the capabilities that were found at start.
pub fn extractor_for_ext(ext: &str, cell: &CapabilityCell) -> (r: Option<AnyExtractor>)
    ensures
        r == extractor_of(ext@, known_capabilities(cell.found())),
{
    extractor_for_ext_with_caps(ext, &cell.capabilities())
}

/// The extensions of files of text.
pub open spec fn text_exts() -> Seq<Seq<char>> {
    seq![
        "txt"@, "md"@, "log"@, "csv"@, "json"@, "xml"@, "html"@, "htm"@, "yaml"@, "yml"@, "toml"@,
        "ini"@, "cfg"@, "rs"@, "py"@, "js"@, "ts"@, "c"@, "h"@, "cpp"@, "hpp"@, "java"@, "go"@,
        "sh"@, "css"@, "scss"@, "sql"@, "rb"@,
    ]
}

/// Whether the extension is that of a file of text.
fn is_text_ext(ext: &str) -> (r: bool)
    ensures
        r == text_exts().contains(ext@),
{
    let known: [&'static str; 28] = [
        "txt", "md", "log", "csv", "json", "xml", "html", "htm", "yaml", "yml", "toml", "ini",
        "cfg", "rs", "py", "js", "ts", "c", "h", "cpp", "hpp", "java", "go", "sh", "css", "scss",
        "sql", "rb",
    ];
    assert(forall|i: int| 0 <= i < 28 ==> #[trigger] known@[i]@ == text_exts()[i]);
    let mut i: usize = 0;
    while i < 28
        invariant
            i <= 28,
            text_exts().len() == 28,
            forall|k: int| 0 <= k < 28 ==> #[trigger] known@[k]@ == text_exts()[k],
            forall|k: int| 0 <= k < i ==> text_exts()[k] != ext@,
        decreases 28 - i,
    {
        assert(known@[i as int]@ == text_exts()[i as int]);
        if same(known[i], ext) {
            return true;
        }
        i = i + 1;
    }
    false
}

/// How a file is read.
#[derive(Debug, Clone, Copy, PartialEq, Eq, Structural)]
pub enum ExtractPlan {
    /// By the extractor for its format.
    Format(AnyExtractor),
    /// As a file of text.
    Text,
    /// As a file of text if its first bytes look like it, else not at all.
    Sniff,
    /// Not at all.
    Skip,
}

/// The extension of a path in lower case, or nothing.
pub open spec fn lower_ext(path: Seq<char>) -> Seq<char> {
    match extension_of(path) {
        Some(e) => lowercase_of(e),
        None => Seq::empty(),
    }
}

/// How a file with the given extension is read.
pub open spec fn plan_of(ext: Seq<char>, caps: ExtractorCapabilities) -> ExtractPlan {
    match extractor_of(ext, caps) {
        Some(x) => ExtractPlan::Format(x),
        None => if text_exts().contains(ext) {
            ExtractPlan::Text
        } else if ext.len() == 0 {
            ExtractPlan::Sniff
        } else {
            ExtractPlan::Skip
        },
    }
}

/// How a file with the given extension, in lower case, is read.
pub fn plan_for_ext(ext: &str, caps: &ExtractorCapabilities) -> (r: ExtractPlan)
    ensures
        r == plan_of(ext@, *caps),
{
    match extractor_for_ext_with_caps(ext, caps) {
        Some(x) => ExtractPlan::Format(x),
        None => {
            if is_text_ext(ext) {
                ExtractPlan::Text
            } else if ext.is_empty() {
                ExtractPlan::Sniff
            } else {
                ExtractPlan::Skip
            }
        },
    }
}

/// How the file at a path is read.
pub fn extract_plan(path: &str, caps: &ExtractorCapabilities) -> (r: ExtractPlan)
    ensures
        r == plan_of(lower_ext(path@), *caps),
{
    let ext = match extension(path) {
        Some(e) => lowercase(e.as_str()),
        None => String::new(),
    };
    plan_for_ext(ext.as_str(), caps)
}

/// The first bytes of a file.
pub open spec fn sniffed(bytes: Seq<u8>) -> Seq<u8> {
    if bytes.len() > SNIFF_LEN {
        bytes.take(SNIFF_LEN as int)
    } else {
        bytes
    }
}

/// Whether `x` is what a plan makes of the bytes of a file.
pub open spec fn extracted(plan: ExtractPlan, bytes: Seq<u8>, x: Extraction) -> bool {
    match plan {
        ExtractPlan::Format(AnyExtractor::Pdf(e)) => needs_tool(x, "pdf"@, e.runner),
        ExtractPlan::Format(AnyExtractor::Doc(e)) => needs_tool(x, "doc"@, e.runner),
        ExtractPlan::Format(AnyExtractor::Xls(e)) => needs_tool(x, "xls"@, e.runner),
        ExtractPlan::Format(AnyExtractor::Ppt(e)) => needs_tool(x, "ppt"@, e.runner),
        ExtractPlan::Format(AnyExtractor::Ooxml(_)) => x matches Extraction::Done(t) && result_view(
            t,
        ) == ooxml_text(bytes),
        ExtractPlan::Format(AnyExtractor::Odt(_)) => x matches Extraction::Done(t) && result_view(t)
            == odt_text(bytes),
        ExtractPlan::Format(AnyExtractor::Rtf(_)) => x matches Extraction::Done(t) && result_view(t)
            == rtf_result(bytes),
        ExtractPlan::Text => x matches Extraction::Done(Ok(t)) && t@ == file_text(bytes),
        ExtractPlan::Sniff => x matches Extraction::Done(Ok(t)) && t@ == (if looks_like_text(
            sniffed(bytes),
        ) {
            file_text(bytes)
        } else {
            Seq::empty()
        }),
        ExtractPlan::Skip => x matches Extraction::Done(Ok(t)) && t@.len() == 0,
    }
}

/// What a plan makes of the bytes of a file.
pub fn extract_contents(plan: &ExtractPlan, bytes: &Vec<u8>) -> (r: Extraction)
    ensures
        extracted(*plan, bytes@, r),
{
    match plan {
        ExtractPlan::Format(AnyExtractor::Pdf(e)) => e.extract(bytes),
        ExtractPlan::Format(AnyExtractor::Doc(e)) => e.extract(bytes),
        ExtractPlan::Format(AnyExtractor::Xls(e)) => e.extract(bytes),
        ExtractPlan::Format(AnyExtractor::Ppt(e)) => e.extract(bytes),
        ExtractPlan::Format(AnyExtractor::Ooxml(e)) => e.extract(bytes),
        ExtractPlan::Format(AnyExtractor::Odt(e)) => e.extract(bytes),
        ExtractPlan::Format(AnyExtractor::Rtf(e)) => e.extract(bytes),
        ExtractPlan::Text => Extraction::Done(Ok(extract_text_file(bytes.as_slice()))),
        ExtractPlan::Sniff => {
            let n: usize = if bytes.len() > SNIFF_LEN {
                SNIFF_LEN
            } else {
                bytes.len()
            };
            let head = slice_subrange(bytes.as_slice(), 0, n);
            assert(head@ =~= sniffed(bytes@));
            if sniff_text(head) {
                Extraction::Done(Ok(extract_text_file(bytes.as_slice())))
            } else {
                Extraction::Done(Ok(String::new()))
            }
        },
        ExtractPlan::Skip => Extraction::Done(Ok(String::new())),
    }
}

/// The formats that other programs read are left out where the program is not there, and
/// only those.
pub proof fn law_missing_tools(ext: Seq<char>, caps: ExtractorCapabilities)
    ensures
        extractor_of(ext, caps) is Some ==> extractor_of(ext, all_available()) is Some,
        extractor_of(ext, all_available()) is Some && extractor_of(ext, caps) is None ==> ext
            == "pdf"@ || ext == "doc"@ || ext == "xls"@ || ext == "ppt"@,
{
}

/// A tag goes, with its brackets and whatever stands in it, and what stands round it stays; an
/// unclosed tag reaches to the end, and a closing bracket by itself goes alone.
pub proof fn law_tags_go(a: Seq<char>, tag: Seq<char>, b: Seq<char>)
    requires
        !a.contains('<') && !a.contains('>'),
        !tag.contains('>'),
    ensures
        untagged(a + seq!['<'] + tag + seq!['>'] + b) == a + untagged(b),
        untagged(a + seq!['<'] + tag) == a,
        untagged(a + seq!['>'] + b) == a + untagged(b),
{
    lemma_plain(a);
    lemma_in_tag(a, tag);
    let t = a + seq!['<'] + tag + seq!['>'];
    assert(t.drop_last() =~= a + seq!['<'] + tag);
    assert(t.last() == '>');
    lemma_untagged_after(t, b);
    let u = a + seq!['>'];
    assert(u.drop_last() =~= a);
    lemma_untagged_after(u, b);
}

proof fn lemma_in_tag(a: Seq<char>, tag: Seq<char>)
    requires
        !tag.contains('>'),
        !ends_in_tag(a),
    ensures
        ends_in_tag(a + seq!['<'] + tag),
        untagged(a + seq!['<'] + tag) == untagged(a),
    decreases tag.len(),
{
    let s = a + seq!['<'] + tag;
    if tag.len() == 0 {
        assert(s.drop_last() =~= a);
        assert(s.last() == '<');
    } else {
        let t = tag.drop_last();
        assert forall|i: int| 0 <= i < t.len() implies t[i] != '>' by {
            assert(tag.contains(tag[i]));
        }
        assert(tag.contains(tag.last()));
        lemma_in_tag(a, t);
        assert(s.drop_last() =~= a + seq!['<'] + t);
        assert(s.last() == tag.last());
    }
}

proof fn lemma_untagged_after(a: Seq<char>, b: Seq<char>)
    requires
        !ends_in_tag(a),
    ensures
        untagged(a + b) == untagged(a) + untagged(b),
        ends_in_tag(a + b) == ends_in_tag(b),
    decreases b.len(),
{
    if b.len() == 0 {
        assert(a + b =~= a);
        assert(untagged(a + b) =~= untagged(a) + untagged(b));
    } else {
        lemma_untagged_after(a, b.drop_last());
        assert((a + b).drop_last() =~= a + b.drop_last());
        assert((a + b).last() == b.last());
        assert(untagged(a + b) =~= untagged(a) + untagged(b));
    }
}

/// The text of the parts in a directory is the text of each of them, in the order of the
/// entries; an entry that is none of them adds nothing, and one that cannot be read spoils all.
pub proof fn law_parts_text(a: Seq<EntryView>, e: EntryView, b: Seq<EntryView>, dir: Seq<char>)
    ensures
        parts_text(a + b, dir) == (match (parts_text(a, dir), parts_text(b, dir)) {
            (Some(x), Some(y)) => Some(x + y),
            _ => None,
        }),
        (e.name matches Some(n) && is_part(n, dir)) ==> parts_text(seq![e], dir) == (match e.text {
            Some(t) => Some(untagged(t)),
            None => None,
        }),
        !(e.name matches Some(n) && is_part(n, dir)) ==> parts_text(seq![e], dir) == Some(
            Seq::<char>::empty(),
        ),
    decreases b.len(),
{
    let one = seq![e];
    assert(one.drop_last() =~= Seq::empty());
    assert(parts_text(one.drop_last(), dir) == Some(Seq::<char>::empty()));
    if e.text is Some {
        assert(Seq::<char>::empty() + untagged(e.text->0) =~= untagged(e.text->0));
    }
    if b.len() == 0 {
        assert(a + b =~= a);
        if parts_text(a, dir) is Some {
            assert(parts_text(a, dir)->0 + Seq::<char>::empty() =~= parts_text(a, dir)->0);
        }
    } else {
        law_parts_text(a, e, b.drop_last(), dir);
        assert((a + b).drop_last() =~= a + b.drop_last());
        assert((a + b).last() == b.last());
        if parts_text(a, dir) is Some && parts_text(b.drop_last(), dir) is Some && b.last().text
            is Some {
            let x = parts_text(a, dir)->0;
            let y = parts_text(b.drop_last(), dir)->0;
            let z = untagged(b.last().text->0);
            assert(x + y + z =~= x + (y + z));
        }
    }
}

/// A part of a directory is an XML file in it, whatever its name.
pub proof fn law_part_names(dir: Seq<char>, name: Seq<char>)
    ensures
        is_part(dir + name + ".xml"@, dir),
        is_part(name, dir) ==> name.len() >= dir.len() && name.take(dir.len() as int) == dir,
{
    let s = dir + name + ".xml"@;
    crate::text::law_parts_of_a_text(dir + name, ".xml"@, Seq::empty());
    crate::text::law_parts_of_a_text(Seq::empty(), dir, name + ".xml"@);
    assert(s =~= dir + (name + ".xml"@));
}

/// A word document's own text is what is read, whatever else is in the archive; without any
/// text there, that of the sheets is, and without sheets that of the slides. The office formats
/// are told apart by their contents alone.
pub proof fn law_office_text(
    doc: Seq<char>,
    sheets: Seq<char>,
    slides: Seq<char>,
    entries: Seq<EntryView>,
)
    requires
        parts_text(entries, "xl/worksheets/"@) == Some(sheets),
        parts_text(entries, "ppt/slides/"@) == Some(slides),
    ensures
        untagged(doc).len() > 0 ==> ooxml_of(Some(Some(doc)), entries) == Ok::<_, ExtractError>(
            trimmed(untagged(doc)),
        ),
        untagged(doc).len() == 0 ==> ooxml_of(Some(Some(doc)), entries) == ooxml_of(None, entries),
        sheets.len() > 0 ==> ooxml_of(None, entries) == Ok::<_, ExtractError>(trimmed(sheets)),
        sheets.len() == 0 ==> ooxml_of(None, entries) == Ok::<_, ExtractError>(trimmed(slides)),
        ooxml_of(Some(None), entries) == Err::<Seq<char>, _>(ExtractError::BadEntry),
{
}

/// A part that cannot be read is an error only where its text is called for.
pub proof fn law_office_errors(document: Option<Option<Seq<char>>>, entries: Seq<EntryView>)
    ensures
        ooxml_of(document, entries) is Err ==> document == Some(None::<Seq<char>>) || parts_text(
            entries,
            "xl/worksheets/"@,
        ) is None || parts_text(entries, "ppt/slides/"@) is None,
        document matches Some(Some(t)) ==> (untagged(t).len() > 0 ==> ooxml_of(document, entries)
            is Ok),
        document is None && parts_text(entries, "xl/worksheets/"@) is None ==> ooxml_of(
            document,
            entries,
        ) is Err,
        ooxml_of(document, entries) matches Err(e) ==> e == ExtractError::BadEntry,
{
}

/// What is no archive is refused; in an archive the text is read from the entry that the format
/// keeps it in.
pub proof fn law_archives(bytes: Seq<u8>, t: Seq<char>)
    ensures
        !archive_valid(bytes) ==> ooxml_text(bytes) == Err::<Seq<char>, _>(
            ExtractError::BadArchive,
        ) && odt_text(bytes) == Err::<Seq<char>, _>(ExtractError::BadArchive),
        archive_valid(bytes) && named_text(bytes, "word/document.xml"@) == Some(Some(t))
            && untagged(t).len() > 0 ==> ooxml_text(bytes) == Ok::<_, ExtractError>(
            trimmed(untagged(t)),
        ),
        archive_valid(bytes) && named_text(bytes, "content.xml"@) == Some(Some(t)) ==> odt_text(
            bytes,
        ) == Ok::<_, ExtractError>(trimmed(untagged(t))),
        archive_valid(bytes) && named_text(bytes, "content.xml"@) is None ==> odt_text(bytes)
            == Err::<Seq<char>, _>(ExtractError::NoContent),
        archive_valid(bytes) && named_text(bytes, "content.xml"@) == Some(None::<Seq<char>>)
            ==> odt_text(bytes) == Err::<Seq<char>, _>(ExtractError::BadEntry),
        archive_valid(bytes) && named_text(bytes, "word/document.xml"@) is None && archive_len(
            bytes,
        ) == 0 ==> ooxml_text(bytes) == Ok::<_, ExtractError>(Seq::<char>::empty()),
{
    if archive_valid(bytes) && archive_len(bytes) == 0 {
        assert(office_entries(bytes) =~= Seq::empty());
        assert(trimmed(Seq::<char>::empty()) =~= Seq::empty());
    }
}

/// Every sheet and slide of an archive is read, and keeps its own name and text; no other entry
/// is read.
pub proof fn law_office_entries(bytes: Seq<u8>, i: int)
    requires
        0 <= i < archive_len(bytes),
    ensures
        office_entries(bytes).len() == archive_len(bytes),
        office_entries(bytes)[i].name == entry_name(bytes, i as nat),
        entry_name(bytes, i as nat) matches Some(n) ==> (is_part(n, "xl/worksheets/"@) || is_part(
            n,
            "ppt/slides/"@,
        ) ==> office_entries(bytes)[i].text == entry_text(bytes, i as nat)),
        entry_name(bytes, i as nat) is None ==> office_entries(bytes)[i].text is None,
{
}

/// The office and rich-text formats are read by the library itself, whatever programs there
/// are; the older formats each need their own program, and run within the time limit.
pub proof fn law_extractors(caps: ExtractorCapabilities)
    ensures
        extractor_of("docx"@, caps) matches Some(AnyExtractor::Ooxml(_)),
        extractor_of("xlsx"@, caps) matches Some(AnyExtractor::Ooxml(_)),
        extractor_of("pptx"@, caps) matches Some(AnyExtractor::Ooxml(_)),
        extractor_of("odt"@, caps) matches Some(AnyExtractor::Odt(_)),
        extractor_of("rtf"@, caps) matches Some(AnyExtractor::Rtf(_)),
        extractor_of("pdf"@, caps) is Some <==> caps.has_pdftotext,
        extractor_of("doc"@, caps) is Some <==> caps.has_antiword,
        extractor_of("xls"@, caps) is Some <==> caps.has_catdoc,
        extractor_of("ppt"@, caps) is Some <==> caps.has_libreoffice,
        extractor_of("pdf"@, caps) matches Some(x) ==> (x matches AnyExtractor::Pdf(e)
            && e.runner.timeout == caps.timeout),
        extractor_of("doc"@, caps) matches Some(x) ==> (x matches AnyExtractor::Doc(e)
            && e.runner.timeout == caps.timeout),
        extractor_of("xls"@, caps) matches Some(x) ==> (x matches AnyExtractor::Xls(e)
            && e.runner.timeout == caps.timeout),
        extractor_of("ppt"@, caps) matches Some(x) ==> (x matches AnyExtractor::Ppt(e)
            && e.runner.timeout == caps.timeout),
{
    reveal_strlit("docx");
    reveal_strlit("xlsx");
    reveal_strlit("pptx");
    reveal_strlit("odt");
    reveal_strlit("rtf");
    reveal_strlit("pdf");
    reveal_strlit("doc");
    reveal_strlit("xls");
    reveal_strlit("ppt");
    assert("pdf"@.len() == 3 && "odt"@.len() == 3 && "rtf"@.len() == 3);
    assert("pdf"@[0] == 'p' && "pdf"@[1] == 'd');
    assert("ppt"@[0] == 'p' && "ppt"@[1] == 'p');
    assert("odt"@[0] == 'o');
    assert("rtf"@[0] == 'r');
    assert("doc"@[0] == 'd');
    assert("xls"@[0] == 'x');
    assert("docx"@.len() == 4 && "xlsx"@.len() == 4 && "pptx"@.len() == 4);
}

/// A file of text is read as such whatever programs there are; a file without an extension is
/// looked into; any other is read only by its format.
pub proof fn law_plans(ext: Seq<char>, caps: ExtractorCapabilities)
    ensures
        extractor_of(ext, caps) matches Some(x) ==> plan_of(ext, caps) == ExtractPlan::Format(x),
        plan_of(ext, caps) is Format ==> extractor_of(ext, caps) is Some,
        extractor_of(ext, caps) is None && text_exts().contains(ext) <==> plan_of(ext, caps)
            is Text,
        ext.len() == 0 ==> plan_of(ext, caps) is Sniff,
        plan_of(ext, caps) is Sniff ==> ext.len() == 0,
        plan_of(ext, caps) is Skip <==> ext.len() > 0 && extractor_of(ext, caps) is None
            && !text_exts().contains(ext),
{
    reveal_strlit("docx");
    reveal_strlit("xlsx");
    reveal_strlit("pptx");
    reveal_strlit("odt");
    reveal_strlit("rtf");
    reveal_strlit("pdf");
    reveal_strlit("doc");
    reveal_strlit("xls");
    reveal_strlit("ppt");
    if ext.len() == 0 && text_exts().contains(ext) {
        let i = choose|i: int| 0 <= i < text_exts().len() && text_exts()[i] == ext;
        lemma_text_ext_len(i);
    }
}

proof fn lemma_text_ext_len(i: int)
    requires
        0 <= i < text_exts().len(),
    ensures
        text_exts()[i].len() > 0,
{
    reveal_strlit("txt");
    reveal_strlit("md");
    reveal_strlit("log");
    reveal_strlit("csv");
    reveal_strlit("json");
    reveal_strlit("xml");
    reveal_strlit("html");
    reveal_strlit("htm");
    reveal_strlit("yaml");
    reveal_strlit("yml");
    reveal_strlit("toml");
    reveal_strlit("ini");
    reveal_strlit("cfg");
    reveal_strlit("rs");
    reveal_strlit("py");
    reveal_strlit("js");
    reveal_strlit("ts");
    reveal_strlit("c");
    reveal_strlit("h");
    reveal_strlit("cpp");
    reveal_strlit("hpp");
    reveal_strlit("java");
    reveal_strlit("go");
    reveal_strlit("sh");
    reveal_strlit("css");
    reveal_strlit("scss");
    reveal_strlit("sql");
    reveal_strlit("rb");
}

/// A text file in UTF-8 is read whole, character by character as it was written; one without an
/// extension is read whole or not at all, by its beginning; a skipped one gives nothing.
pub proof fn law_text_files(s: Seq<char>, x: Extraction)
    ensures
        extracted(ExtractPlan::Text, vstd::utf8::encode_utf8(s), x) ==> (x matches Extraction::Done(
            Ok(t),
        ) && t@ == s),
        extracted(ExtractPlan::Sniff, vstd::utf8::encode_utf8(s), x) ==> (x matches Extraction::Done(
            Ok(t),
        ) && (t@ == s || t@.len() == 0)),
        extracted(ExtractPlan::Sniff, vstd::utf8::encode_utf8(s), x) && 0
            < vstd::utf8::encode_utf8(s).len() <= SNIFF_LEN && !vstd::utf8::encode_utf8(s).contains(0u8)
            ==> (x matches Extraction::Done(Ok(t)) && t@ == s),
        extracted(ExtractPlan::Sniff, vstd::utf8::encode_utf8(s), x) && vstd::utf8::encode_utf8(
            s,
        ).len() > 0 && vstd::utf8::encode_utf8(s)[0] == 0 ==> (x matches Extraction::Done(Ok(t))
            && t@.len() == 0),
        extracted(ExtractPlan::Skip, vstd::utf8::encode_utf8(s), x) ==> (x matches Extraction::Done(
            Ok(t),
        ) && t@.len() == 0),
{
    vstd::utf8::encode_utf8_valid_utf8(s);
    vstd::utf8::encode_utf8_decode_utf8(s);
    let b = vstd::utf8::encode_utf8(s);
    if b.len() > 0 && b[0] == 0 {
        assert(sniffed(b)[0] == 0);
        assert(sniffed(b).contains(0u8));
    }
}

/// Plain text, markup, settings and source code are files of text, by these extensions and no
/// others.
pub proof fn law_text_extensions(ext: Seq<char>)
    ensures
        text_exts().contains(ext) <==> ({
            ||| ext == "txt"@ || ext == "md"@ || ext == "log"@ || ext == "csv"@ || ext == "json"@
            ||| ext == "xml"@ || ext == "html"@ || ext == "htm"@ || ext == "yaml"@ || ext == "yml"@
            ||| ext == "toml"@ || ext == "ini"@ || ext == "cfg"@ || ext == "rs"@ || ext == "py"@
            ||| ext == "js"@ || ext == "ts"@ || ext == "c"@ || ext == "h"@ || ext == "cpp"@
            ||| ext == "hpp"@ || ext == "java"@ || ext == "go"@ || ext == "sh"@ || ext == "css"@
            ||| ext == "scss"@ || ext == "sql"@ || ext == "rb"@
        }),
{
    assert(text_exts()[0] == "txt"@);
    assert(text_exts()[1] == "md"@);
    assert(text_exts()[2] == "log"@);
    assert(text_exts()[3] == "csv"@);
    assert(text_exts()[4] == "json"@);
    assert(text_exts()[5] == "xml"@);
    assert(text_exts()[6] == "html"@);
    assert(text_exts()[7] == "htm"@);
    assert(text_exts()[8] == "yaml"@);
    assert(text_exts()[9] == "yml"@);
    assert(text_exts()[10] == "toml"@);
    assert(text_exts()[11] == "ini"@);
    assert(text_exts()[12] == "cfg"@);
    assert(text_exts()[13] == "rs"@);
    assert(text_exts()[14] == "py"@);
    assert(text_exts()[15] == "js"@);
    assert(text_exts()[16] == "ts"@);
    assert(text_exts()[17] == "c"@);
    assert(text_exts()[18] == "h"@);
    assert(text_exts()[19] == "cpp"@);
    assert(text_exts()[20] == "hpp"@);
    assert(text_exts()[21] == "java"@);
    assert(text_exts()[22] == "go"@);
    assert(text_exts()[23] == "sh"@);
    assert(text_exts()[24] == "css"@);
    assert(text_exts()[25] == "scss"@);
    assert(text_exts()[26] == "sql"@);
    assert(text_exts()[27] == "rb"@);
    assert(text_exts().len() == 28);
}

/// The programs that were found first stay, and until any were found all are reckoned with.
pub proof fn law_first_found(
    found: Option<ExtractorCapabilities>,
    a: ExtractorCapabilities,
    b: ExtractorCapabilities,
    ext: Seq<char>,
)
    ensures
        first_found(first_found(found, a), b) == first_found(found, a),
        known_capabilities(first_found(None, a)) == a,
        found matches Some(c) ==> known_capabilities(first_found(found, a)) == c,
        extractor_of(ext, a) is Some ==> extractor_of(ext, known_capabilities(None)) is Some,
{
    law_missing_tools(ext, a);
}

/// A file without an extension is judged by its beginning alone, as far as is looked: a zero byte
/// there gives it up, and one behind does not.
pub proof fn law_sniffing(head: Seq<u8>, rest: Seq<u8>, i: int, x: Extraction)
    requires
        head.len() == SNIFF_LEN,
        extracted(ExtractPlan::Sniff, head + rest, x),
    ensures
        0 <= i < head.len() && head[i] == 0 ==> (x matches Extraction::Done(Ok(t)) && t@.len() == 0),
        !vstd::utf8::valid_utf8(head) ==> (x matches Extraction::Done(Ok(t)) && t@.len() == 0),
        vstd::utf8::valid_utf8(head) && !head.contains(0u8) ==> (x matches Extraction::Done(Ok(t))
            && t@ == file_text(head + rest)),
{
    let b = head + rest;
    assert(b.take(SNIFF_LEN as int) =~= head);
    assert(sniffed(b) =~= head);
    if 0 <= i < head.len() && head[i] == 0 {
        assert(head.contains(0u8));
    }
}

/// The format of a file goes by the last extension of its name, in small letters, whatever the
/// directory; a file without one has no format.
pub proof fn law_formats_by_name(
    dir: Seq<char>,
    stem: Seq<char>,
    ext: Seq<char>,
    path: Seq<char>,
    caps: ExtractorCapabilities,
)
    requires
        dir.len() > 0,
        stem.len() > 0,
        !stem.contains('/'),
        !ext.contains('/'),
        !ext.contains('.'),
        ext.len() > 0,
    ensures
        lower_ext(crate::paths::path_joined(dir, stem + seq!['.'] + ext)) == lowercase_of(ext),
        extension_of(path) is None ==> lower_ext(path).len() == 0,
        extension_of(path) is None ==> plan_of(lower_ext(path), caps) is Sniff,
{
    crate::paths::law_extension(dir, stem, ext);
    law_plans(lower_ext(path), caps);
}

/// A file of a format that the library reads comes to the text of that format, and one for a
/// program to a run of it on a copy with the same extension, within the time limit.
pub proof fn law_extracted_by_format(caps: ExtractorCapabilities, bytes: Seq<u8>, x: Extraction)
    ensures
        extracted(plan_of("docx"@, caps), bytes, x) ==> (x matches Extraction::Done(t)
            && result_view(t) == ooxml_text(bytes)),
        extracted(plan_of("xlsx"@, caps), bytes, x) ==> (x matches Extraction::Done(t)
            && result_view(t) == ooxml_text(bytes)),
        extracted(plan_of("pptx"@, caps), bytes, x) ==> (x matches Extraction::Done(t)
            && result_view(t) == ooxml_text(bytes)),
        extracted(plan_of("odt"@, caps), bytes, x) ==> (x matches Extraction::Done(t)
            && result_view(t) == odt_text(bytes)),
        extracted(plan_of("rtf"@, caps), bytes, x) ==> (x matches Extraction::Done(t)
            && result_view(t) == Ok::<_, ExtractError>(tokens_text(rtf_tokens(bytes)))),
        caps.has_pdftotext && extracted(plan_of("pdf"@, caps), bytes, x) ==> (
        x matches Extraction::NeedsTool { ext, runner } && ext@ == "pdf"@ && runner.timeout
            == caps.timeout),
        caps.has_antiword && extracted(plan_of("doc"@, caps), bytes, x) ==> (
        x matches Extraction::NeedsTool { ext, runner } && ext@ == "doc"@ && runner.timeout
            == caps.timeout),
        caps.has_catdoc && extracted(plan_of("xls"@, caps), bytes, x) ==> (
        x matches Extraction::NeedsTool { ext, runner } && ext@ == "xls"@ && runner.timeout
            == caps.timeout),
        caps.has_libreoffice && extracted(plan_of("ppt"@, caps), bytes, x) ==> (
        x matches Extraction::NeedsTool { ext, runner } && ext@ == "ppt"@ && runner.timeout
            == caps.timeout),
{
    law_extractors(caps);
}

/// An archive without a word document has the text of its sheets, and without sheets that of its
/// slides.
pub proof fn law_sheets_and_slides(bytes: Seq<u8>, sheets: Seq<char>, slides: Seq<char>)
    requires
        archive_valid(bytes),
        named_text(bytes, "word/document.xml"@) is None,
        parts_text(office_entries(bytes), "xl/worksheets/"@) == Some(sheets),
        parts_text(office_entries(bytes), "ppt/slides/"@) == Some(slides),
    ensures
        sheets.len() > 0 ==> ooxml_text(bytes) == Ok::<_, ExtractError>(trimmed(sheets)),
        sheets.len() == 0 ==> ooxml_text(bytes) == Ok::<_, ExtractError>(trimmed(slides)),
{
    law_office_text(Seq::empty(), sheets, slides, office_entries(bytes));
}

}
