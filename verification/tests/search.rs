use lupa::index::{build_fuzzy_query, Occur, QueryClause, SearchField};
use tantivy::collector::Count;
use tantivy::query::{BooleanQuery, FuzzyTermQuery, Query};
use tantivy::schema::{Field, Schema, TEXT};
use tantivy::{Index, IndexWriter, TantivyDocument, Term};

struct Fields {
    title: Field,
    body: Field,
    path: Field,
}

fn clause_query(clause: &QueryClause, fields: &Fields) -> (tantivy::query::Occur, Box<dyn Query>) {
    let terms: Vec<(tantivy::query::Occur, Box<dyn Query>)> = clause
        .terms
        .iter()
        .map(|t| {
            let field = match t.field {
                SearchField::Title => fields.title,
                SearchField::Body => fields.body,
                SearchField::Path => fields.path,
            };
            let query = FuzzyTermQuery::new(Term::from_field_text(field, &t.term), t.distance, true);
            (tantivy::query::Occur::Should, Box::new(query) as Box<dyn Query>)
        })
        .collect();
    let occur = match clause.occur {
        Occur::Must => tantivy::query::Occur::Must,
        Occur::MustNot => tantivy::query::Occur::MustNot,
    };
    (occur, Box::new(BooleanQuery::new(terms)))
}

/// How many of the documents with these titles a query finds.
fn found(titles: &[&str], text: &str) -> usize {
    let mut builder = Schema::builder();
    let fields = Fields {
        title: builder.add_text_field("title", TEXT),
        body: builder.add_text_field("body", TEXT),
        path: builder.add_text_field("path", TEXT),
    };
    let index = Index::create_in_ram(builder.build());
    let mut writer: IndexWriter<TantivyDocument> =
        index.writer_with_num_threads(1, 15_000_000).unwrap();
    for title in titles {
        let mut doc = TantivyDocument::default();
        doc.add_text(fields.title, title);
        writer.add_document(doc).unwrap();
    }
    writer.commit().unwrap();
    let clauses = build_fuzzy_query(text).iter().map(|c| clause_query(c, &fields)).collect();
    let searcher = index.reader().unwrap().searcher();
    searcher.search(&BooleanQuery::new(clauses), &Count).unwrap()
}

#[test]
fn letters_may_be_missing() {
    assert_eq!(found(&["Chrome"], "chrm"), 1);
    assert_eq!(found(&["Firefox"], "firfox"), 1);
    assert_eq!(found(&["Chrome"], "krita"), 0);
}

#[test]
fn every_word_is_asked_for() {
    let titles = ["my report", "my holiday", "annual report draft"];
    assert_eq!(found(&titles, "my report"), 1);
    assert_eq!(found(&titles, "report"), 2);
    assert_eq!(found(&titles, "report -draft"), 1);
    assert_eq!(found(&titles, ""), 0);
}
