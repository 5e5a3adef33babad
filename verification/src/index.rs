//! The index: what a query looks for, what is stored of a document, and what a stored
//! document is read back as.
use crate::model::{Action, Category, DocId, Document, Hit};
use crate::split::split_whitespace;
use crate::text::{chars_of, same, string_range, trim};
use vstd::prelude::*;
use vstd::string::*;
use vstd::utf8::*;

verus! {

use crate::model::{category_text, ActionView, HitView};
use crate::socket::opt_str;
use crate::split::words_of;
use crate::text::{is_blank, opt_view, trimmed, views};

/// A field that is searched.
#[derive(Debug, Clone, Copy, PartialEq, Eq, Structural)]
pub enum SearchField {
    Title,
    Body,
    Path,
}

/// A word to look for in a field, with a number of edits by which it may differ.
pub struct FuzzyTerm {
    pub field: SearchField,
    pub term: String,
    pub distance: u8,
}

/// What a fuzzy term holds.
pub struct FuzzyTermView {
    pub field: SearchField,
    pub term: Seq<char>,
    pub distance: u8,
}

impl View for FuzzyTerm {
    type V = FuzzyTermView;

    open spec fn view(&self) -> FuzzyTermView {
        FuzzyTermView { field: self.field, term: self.term@, distance: self.distance }
    }
}

/// What the fuzzy terms of a list hold.
pub open spec fn term_views(v: Seq<FuzzyTerm>) -> Seq<FuzzyTermView> {
    Seq::new(v.len(), |i: int| v[i]@)
}

/// The number of edits by which a word may differ: one for a word of up to five bytes, two for
/// a longer one. A word of four bytes may differ by two as well: that is how far an abbreviation
/// such as "chrm" is from the word that it stands for.
pub open spec fn fuzzy_distance(word: Seq<char>) -> u8 {
    let n = encode_utf8(word).len();
    if n <= 5 && n != 4 {
        1
    } else {
        2
    }
}

/// The fuzzy terms for one word.
pub open spec fn word_terms(word: Seq<char>) -> Seq<FuzzyTermView> {
    let distance = fuzzy_distance(word);
    seq![
        FuzzyTermView { field: SearchField::Title, term: word, distance },
        FuzzyTermView { field: SearchField::Body, term: word, distance },
        FuzzyTermView { field: SearchField::Path, term: word, distance },
    ]
}

/// Whether documents that match are wanted or left out.
#[derive(Debug, Clone, Copy, PartialEq, Eq, Structural)]
pub enum Occur {
    Must,
    MustNot,
}

/// What one word of a query asks for: the documents that match one of the terms, or those
/// that match none.
pub struct QueryClause {
    pub occur: Occur,
    pub terms: Vec<FuzzyTerm>,
}

/// What a clause holds.
pub struct ClauseView {
    pub occur: Occur,
    pub terms: Seq<FuzzyTermView>,
}

impl View for QueryClause {
    type V = ClauseView;

    open spec fn view(&self) -> ClauseView {
        ClauseView { occur: self.occur, terms: term_views(self.terms@) }
    }
}

/// What the clauses of a list hold.
pub open spec fn clause_views(v: Seq<QueryClause>) -> Seq<ClauseView> {
    Seq::new(v.len(), |i: int| v[i]@)
}

/// Whether a word asks for documents without it: it begins with a minus sign, and there is
/// more to it.
pub open spec fn is_negated(word: Seq<char>) -> bool {
    word.len() > 1 && word[0] == '-'
}

/// What a word of a query asks for.
pub open spec fn clause_of(word: Seq<char>) -> ClauseView {
    if is_negated(word) {
        ClauseView { occur: Occur::MustNot, terms: word_terms(word.skip(1)) }
    } else {
        ClauseView { occur: Occur::Must, terms: word_terms(word) }
    }
}

/// What the words of a query ask for.
pub open spec fn query_clauses(words: Seq<Seq<char>>) -> Seq<ClauseView> {
    Seq::new(words.len(), |i: int| clause_of(words[i]))
}

/// Whether a document matches one of the terms of a clause, given the terms that it matches.
pub open spec fn meets(clause: ClauseView, hit: spec_fn(FuzzyTermView) -> bool) -> bool {
    exists|j: int| 0 <= j < clause.terms.len() && hit(#[trigger] clause.terms[j])
}

/// Whether a query finds a document, given the terms that it matches: it matches every word
/// that is asked for, of which there is one at least, and none that is left out.
pub open spec fn finds(clauses: Seq<ClauseView>, hit: spec_fn(FuzzyTermView) -> bool) -> bool {
    &&& exists|i: int| 0 <= i < clauses.len() && (#[trigger] clauses[i]).occur == Occur::Must
    &&& forall|i: int|
        0 <= i < clauses.len() ==> meets(#[trigger] clauses[i], hit) == (clauses[i].occur
            == Occur::Must)
}

/// The terms for one word.
fn terms_for(word: &String) -> (r: Vec<FuzzyTerm>)
    ensures
        term_views(r@) == word_terms(word@),
{
    let distance: u8 = word_distance(word);
    let mut v: Vec<FuzzyTerm> = Vec::new();
    v.push(FuzzyTerm { field: SearchField::Title, term: word.clone(), distance });
    v.push(FuzzyTerm { field: SearchField::Body, term: word.clone(), distance });
    v.push(FuzzyTerm { field: SearchField::Path, term: word.clone(), distance });
    assert(term_views(v@) =~= word_terms(word@));
    v
}

/// What a query asks for, word by word. Every word is asked for, in any of three fields and
/// with some edits; a word after a minus sign is left out.
pub fn build_fuzzy_query(text: &str) -> (r: Vec<QueryClause>)
    ensures
        clause_views(r@) == query_clauses(words_of(text@)),
{
    let words = split_whitespace(text);
    let ghost all = words_of(text@);
    let mut out: Vec<QueryClause> = Vec::new();
    for i in 0..words.len()
        invariant
            views(words@) == all,
            clause_views(out@) =~= query_clauses(all).take(i as int),
    {
        assert(views(words@)[i as int] == words@[i as int]@);
        let cs = chars_of(words[i].as_str());
        let ghost before = out@;
        if cs.len() > 1 && cs[0] == '-' {
            let rest = string_range(&cs, 1, cs.len());
            assert(rest@ =~= words@[i as int]@.skip(1));
            out.push(QueryClause { occur: Occur::MustNot, terms: terms_for(&rest) });
        } else {
            out.push(QueryClause { occur: Occur::Must, terms: terms_for(&words[i]) });
        }
        assert(out@.last()@ == clause_of(all[i as int]));
        assert(clause_views(out@) =~= clause_views(before).push(out@.last()@));
    }
    assert(query_clauses(all).take(words@.len() as int) =~= query_clauses(all));
    out
}

/// The number of edits by which a word may differ.
fn word_distance(word: &String) -> (r: u8)
    ensures
        r == fuzzy_distance(word@),
{
    let b = word.as_str().as_bytes();
    if b.len() <= 5 && b.len() != 4 {
        1
    } else {
        2
    }
}

/// A query without words finds nothing, and neither does one that only leaves words out.
pub proof fn law_query_without_words(words: Seq<Seq<char>>, hit: spec_fn(FuzzyTermView) -> bool)
    requires
        forall|i: int| 0 <= i < words.len() ==> is_negated(#[trigger] words[i]),
    ensures
        !finds(query_clauses(words), hit),
{
    let c = query_clauses(words);
    assert forall|i: int| 0 <= i < c.len() implies (#[trigger] c[i]).occur == Occur::MustNot by {
        assert(is_negated(words[i]));
    }
}

/// More words narrow a query: what is found with them is found without them, as long as a
/// word that is asked for is left.
pub proof fn law_more_words_narrow(
    words: Seq<Seq<char>>,
    more: Seq<Seq<char>>,
    hit: spec_fn(FuzzyTermView) -> bool,
)
    requires
        exists|i: int| 0 <= i < words.len() && !is_negated(#[trigger] words[i]),
        finds(query_clauses(words + more), hit),
    ensures
        finds(query_clauses(words), hit),
{
    let c = query_clauses(words);
    let d = query_clauses(words + more);
    assert forall|i: int| 0 <= i < c.len() implies #[trigger] c[i] == d[i] by {
        assert((words + more)[i] == words[i]);
    }
    let k = choose|i: int| 0 <= i < words.len() && !is_negated(#[trigger] words[i]);
    assert(c[k].occur == Occur::Must);
    assert forall|i: int| 0 <= i < c.len() implies meets(#[trigger] c[i], hit) == (c[i].occur
        == Occur::Must) by {
        assert(d[i] == c[i]);
    }
}

/// Every word that is asked for is matched by what is found, and no word that is left out.
pub proof fn law_every_word_counts(
    words: Seq<Seq<char>>,
    i: int,
    hit: spec_fn(FuzzyTermView) -> bool,
)
    requires
        0 <= i < words.len(),
        finds(query_clauses(words), hit),
    ensures
        !is_negated(words[i]) ==> exists|j: int|
            0 <= j < 3 && hit(#[trigger] word_terms(words[i])[j]),
        is_negated(words[i]) ==> forall|j: int|
            0 <= j < 3 ==> !hit(#[trigger] word_terms(words[i].skip(1))[j]),
{
    let c = query_clauses(words);
    assert(c[i] == clause_of(words[i]));
    assert(meets(c[i], hit) == (c[i].occur == Occur::Must));
    if is_negated(words[i]) {
        let terms = word_terms(words[i].skip(1));
        assert(c[i].terms == terms);
        assert forall|j: int| 0 <= j < 3 implies !hit(#[trigger] terms[j]) by {
            assert(c[i].terms[j] == terms[j]);
        }
    }
}

// --- Stored documents ---

/// What is stored of a document. Each field is missing where the index does not have it.
pub struct StoredFields {
    pub id: Option<String>,
    pub category: Option<String>,
    pub title: Option<String>,
    pub subtitle: Option<String>,
    pub action: Option<Action>,
    pub extract_fail: Option<bool>,
}

/// What the stored fields hold.
pub struct StoredView {
    pub id: Option<Seq<char>>,
    pub category: Option<Seq<char>>,
    pub title: Option<Seq<char>>,
    pub subtitle: Option<Seq<char>>,
    pub action: Option<ActionView>,
    pub extract_fail: Option<bool>,
}

impl View for StoredFields {
    type V = StoredView;

    open spec fn view(&self) -> StoredView {
        StoredView {
            id: opt_view(self.id),
            category: opt_view(self.category),
            title: opt_view(self.title),
            subtitle: opt_view(self.subtitle),
            action: (match self.action {
                Some(a) => Some(a@),
                None => None,
            }),
            extract_fail: self.extract_fail,
        }
    }
}

/// The category of a stored name; files where the name is none.
pub open spec fn category_named(s: Seq<char>) -> Category {
    if s == "app"@ {
        Category::App
    } else if s == "mail"@ {
        Category::Mail
    } else if s == "attachment"@ {
        Category::Attachment
    } else {
        Category::File
    }
}

/// A text, or another in its place.
pub open spec fn text_or(o: Option<Seq<char>>, d: Seq<char>) -> Seq<char> {
    match o {
        Some(s) => s,
        None => d,
    }
}

/// What a stored document is read back as.
pub open spec fn read_back<S>(f: StoredView, score: S) -> HitView<S> {
    HitView {
        id: text_or(f.id, "?"@),
        category: category_named(text_or(f.category, "file"@)),
        title: text_or(f.title, Seq::empty()),
        subtitle: text_or(f.subtitle, Seq::empty()),
        icon_name: None,
        kind_label: None,
        score,
        action: (match f.action {
            Some(a) => a,
            None => ActionView::OpenFile { path: Seq::empty() },
        }),
        extract_fail: (match f.extract_fail {
            Some(b) => b,
            None => false,
        }),
    }
}

/// The category of a stored name.
pub fn parse_category(s: &str) -> (r: Category)
    ensures
        r == category_named(s@),
{
    if same(s, "app") {
        Category::App
    } else if same(s, "mail") {
        Category::Mail
    } else if same(s, "attachment") {
        Category::Attachment
    } else {
        Category::File
    }
}

/// The category that a document is stored under.
pub fn stored_category(f: &StoredFields) -> (r: Category)
    ensures
        r == category_named(text_or(f@.category, "file"@)),
{
    match &f.category {
        Some(c) => parse_category(c.as_str()),
        None => {
            parse_category("file")
        },
    }
}

/// What a stored document is read back as, with the given score.
pub fn stored_hit<S>(f: StoredFields, score: S) -> (r: Hit<S>)
    ensures
        r@ == read_back(f@, score),
{
    let category = stored_category(&f);
    let id = match f.id {
        Some(s) => s,
        None => "?".to_owned(),
    };
    let title = match f.title {
        Some(s) => s,
        None => String::new(),
    };
    let subtitle = match f.subtitle {
        Some(s) => s,
        None => String::new(),
    };
    let action = match f.action {
        Some(a) => a,
        None => Action::OpenFile { path: String::new() },
    };
    let extract_fail = match f.extract_fail {
        Some(b) => b,
        None => false,
    };
    let r = Hit {
        id: DocId(id),
        category,
        title,
        subtitle,
        icon_name: None,
        kind_label: None,
        score,
        action,
        extract_fail,
    };
    assert(r@.title =~= read_back(f@, score).title);
    assert(r@.subtitle =~= read_back(f@, score).subtitle);
    assert(r@.action == read_back(f@, score).action) by {
        if f.action is None {
            assert(r@.action->OpenFile_path =~= Seq::<char>::empty());
        }
    }
    r
}

/// What is stored of a document.
pub open spec fn stored_of(d: crate::model::DocumentView) -> StoredView {
    StoredView {
        id: Some(d.id),
        category: Some(category_text(d.category)),
        title: Some(d.title),
        subtitle: Some(d.subtitle),
        action: Some(d.action),
        extract_fail: Some(d.extract_fail),
    }
}

/// What is stored of a document, and the text of its body for the search.
pub fn stored_fields(d: &Document) -> (r: (StoredFields, String))
    ensures
        r.0@ == stored_of(d@),
        r.1@ == text_or(d@.body, Seq::empty()),
{
    let body = match &d.body {
        Some(b) => b.clone(),
        None => String::new(),
    };
    assert(body@ =~= text_or(d@.body, Seq::empty()));
    (
        StoredFields {
            id: Some(d.id.0.clone()),
            category: Some(d.category.as_str().to_owned()),
            title: Some(d.title.clone()),
            subtitle: Some(d.subtitle.clone()),
            action: Some(d.action.clone()),
            extract_fail: Some(d.extract_fail),
        },
        body,
    )
}

/// A document is read back with the identifier, the category, the texts, the action and the
/// mark that it was stored with.
pub proof fn law_read_back_stored<S>(d: crate::model::DocumentView, score: S)
    ensures
        ({
            let h = read_back(stored_of(d), score);
            &&& h.id == d.id
            &&& h.category == d.category
            &&& h.title == d.title
            &&& h.subtitle == d.subtitle
            &&& h.action == d.action
            &&& h.extract_fail == d.extract_fail
            &&& h.score == score
        }),
{
    crate::model::law_category_names_distinct(d.category, Category::App);
    crate::model::law_category_names_distinct(d.category, Category::Mail);
    crate::model::law_category_names_distinct(d.category, Category::Attachment);
}

/// The version of the index on disk.
pub const INDEX_VERSION: &'static str = "1";

/// Whether an index that was stored with this version, if any, has to be built anew.
pub open spec fn is_outdated(stored: Option<Seq<char>>) -> bool {
    match stored {
        Some(v) => trimmed(v) != INDEX_VERSION@,
        None => true,
    }
}

/// Whether the index on disk is to be built anew: the file that keeps its version is not there,
/// or holds another version than this one.
pub fn needs_rebuild(stored: Option<&str>) -> (r: bool)
    ensures
        r == is_outdated(opt_str(stored)),
{
    match stored {
        Some(v) => !same(trim(v).as_str(), INDEX_VERSION),
        None => true,
    }
}

/// Every word is looked for as it stands, in every field that is searched, within one or two
/// edits, and nothing else is looked for. A word with a minus sign before it is looked for
/// without the sign, and in the same way.
pub proof fn law_word_is_looked_for_everywhere(word: Seq<char>, field: SearchField)
    ensures
        ({
            let bare = if word.len() > 1 && word[0] == '-' {
                word.skip(1)
            } else {
                word
            };
            let c = clause_of(word);
            &&& exists|j: int|
                0 <= j < c.terms.len() && (#[trigger] c.terms[j]).field == field && c.terms[j].term
                    == bare && 1 <= c.terms[j].distance <= 2
            &&& forall|j: int|
                0 <= j < c.terms.len() ==> (#[trigger] c.terms[j]).term == bare && c.terms[j].distance
                    == c.terms[0].distance
            &&& (c.occur == Occur::MustNot) == (word.len() > 1 && word[0] == '-')
        }),
{
    let c = clause_of(word);
    match field {
        SearchField::Title => {
            assert(c.terms[0].field == field);
        },
        SearchField::Body => {
            assert(c.terms[1].field == field);
        },
        SearchField::Path => {
            assert(c.terms[2].field == field);
        },
    }
}

/// A document that has the word in a single field, whichever it is, is found by it; with a
/// minus sign before the word it is not, whatever else is looked for.
pub proof fn law_one_field_is_enough(
    word: Seq<char>,
    field: SearchField,
    other: Seq<char>,
    hit: spec_fn(FuzzyTermView) -> bool,
)
    requires
        word.len() > 0,
        word[0] != '-',
        forall|t: FuzzyTermView| t.field == field && t.term == word ==> #[trigger] hit(t),
    ensures
        finds(query_clauses(seq![word]), hit),
        !finds(query_clauses(seq![seq!['-'] + word]), hit),
        !finds(query_clauses(seq![other, seq!['-'] + word]), hit),
{
    let minus = seq!['-'] + word;
    assert(minus.skip(1) =~= word);
    assert(is_negated(minus));
    law_word_is_looked_for_everywhere(word, field);
    law_word_is_looked_for_everywhere(minus, field);
    let c = query_clauses(seq![word]);
    assert(c[0] == clause_of(word));
    let j = choose|j: int|
        0 <= j < c[0].terms.len() && (#[trigger] c[0].terms[j]).field == field
            && c[0].terms[j].term == word;
    assert(hit(c[0].terms[j]));
    assert(meets(c[0], hit));
    let m = clause_of(minus);
    let k = choose|k: int|
        0 <= k < m.terms.len() && (#[trigger] m.terms[k]).field == field && m.terms[k].term == word;
    assert(hit(m.terms[k]));
    assert(meets(m, hit));
    let d = query_clauses(seq![minus]);
    assert(d[0] == m);
    let e = query_clauses(seq![other, minus]);
    assert(e[1] == m);
    assert(meets(e[1], hit));
}

/// A query has one clause for each of its words, in their order, and each depends on its word
/// alone.
pub proof fn law_clause_for_each_word(a: Seq<Seq<char>>, b: Seq<Seq<char>>)
    ensures
        query_clauses(a + b) == query_clauses(a) + query_clauses(b),
        query_clauses(a).len() == a.len(),
{
    assert(query_clauses(a + b) =~= query_clauses(a) + query_clauses(b));
}

/// A longer word may differ by no less than a shorter one, but for words of four bytes, which
/// may differ by as much as the longest.
pub proof fn law_longer_words_differ_more(short: Seq<char>, long: Seq<char>)
    requires
        encode_utf8(short).len() <= encode_utf8(long).len(),
        encode_utf8(short).len() != 4,
    ensures
        fuzzy_distance(short) <= fuzzy_distance(long),
        encode_utf8(short).len() <= 5 ==> fuzzy_distance(short) == 1,
        encode_utf8(long).len() > 5 || encode_utf8(long).len() == 4 ==> fuzzy_distance(long) == 2,
{
}

/// An index is kept exactly if it was stored with this version, whatever white space stands
/// round it.
pub proof fn law_outdated_index(a: Seq<char>, b: Seq<char>, v: Seq<char>)
    requires
        is_blank(a),
        is_blank(b),
    ensures
        !is_outdated(Some(a + INDEX_VERSION@ + b)),
        is_outdated(None),
        trimmed(v) != INDEX_VERSION@ ==> is_outdated(Some(v)),
{
    reveal_strlit("1");
    let s = INDEX_VERSION@;
    assert(s.len() == 1 && s[0] == '1');
    crate::text::law_trimmed(a, s, b);
}

/// What was not stored of a document is read back as nothing, and does not touch the rest.
pub proof fn law_missing_fields<S>(f: StoredView, score: S)
    ensures
        ({
            let h = read_back(f, score);
            &&& f.id matches Some(s) ==> h.id == s
            &&& f.title matches Some(s) ==> h.title == s
            &&& f.title is None ==> h.title.len() == 0
            &&& f.subtitle matches Some(s) ==> h.subtitle == s
            &&& f.subtitle is None ==> h.subtitle.len() == 0
            &&& f.action matches Some(a) ==> h.action == a
            &&& f.action is None ==> h.action == (ActionView::OpenFile { path: Seq::empty() })
            &&& f.extract_fail matches Some(b) ==> h.extract_fail == b
            &&& f.extract_fail is None ==> !h.extract_fail
            &&& f.category is None ==> h.category == Category::File
            &&& h.score == score && h.icon_name is None && h.kind_label is None
        }),
{
    reveal_strlit("file");
    reveal_strlit("app");
    reveal_strlit("mail");
    reveal_strlit("attachment");
    assert("file"@[0] == 'f' && "app"@[0] == 'a' && "mail"@[0] == 'm' && "attachment"@[0] == 'a');
}

/// Every category is stored by its own name, from which it is read back; any other name is
/// taken for that of a file.
pub proof fn law_categories_read_back(c: Category, s: Seq<char>)
    ensures
        category_named(category_text(c)) == c,
        s != category_text(Category::App) && s != category_text(Category::Mail) && s
            != category_text(Category::Attachment) ==> category_named(s) == Category::File,
{
    crate::model::law_category_names_distinct(c, Category::App);
    crate::model::law_category_names_distinct(c, Category::Mail);
    crate::model::law_category_names_distinct(c, Category::Attachment);
}

}
