use bket::book::aggregate;
use bket::book::aggregate_many;
use bket::store::AnnotationRow;
use bket::store::AnnotationStore;
use bket::store::LibraryRow;
use bket::store::LibraryStore;

fn lib_row(asset_id: &str, title: &str, author: &str) -> LibraryRow {
    LibraryRow {
        asset_id: asset_id.to_string(),
        title: title.to_string(),
        author: author.to_string(),
    }
}

fn ann_row(asset_id: &str, text: &str) -> AnnotationRow {
    AnnotationRow { asset_id: asset_id.to_string(), text: text.to_string() }
}

fn sample_library() -> LibraryStore {
    let mut lib = LibraryStore::new();
    lib.add_row(lib_row("A1", "Sample", "X"));
    lib.add_row(lib_row("B2", "Second Book", "Y"));
    lib.add_row(lib_row("C3", "", "Nameless"));
    lib.add_row(lib_row("D4", "Third", "Z"));
    lib
}

#[test]
fn all_books_newest_first_skips_empty_titles() {
    let lib = sample_library();
    let books = lib.all_books();
    let ids: Vec<&str> = books.iter().map(|b| b.asset_id.as_str()).collect();
    assert_eq!(ids, vec!["D4", "B2", "A1"]);
}

#[test]
fn find_by_asset_id_returns_the_row() {
    let lib = sample_library();
    let found = lib.find_by_asset_id(&"B2".to_string()).unwrap();
    assert_eq!(found.title, "Second Book");
    assert_eq!(found.author, "Y");
}

#[test]
fn find_by_asset_id_missing_is_none() {
    let lib = sample_library();
    assert!(lib.find_by_asset_id(&"ZZ".to_string()).is_none());
}

#[test]
fn find_by_asset_id_empty_title_is_none() {
    let lib = sample_library();
    assert!(lib.find_by_asset_id(&"C3".to_string()).is_none());
}

#[test]
fn search_returns_exactly_the_matching_row() {
    let lib = sample_library();
    let hits = lib.search_by_text(&"Sample".to_string());
    assert_eq!(hits.len(), 1);
    assert_eq!(hits[0].asset_id, "A1");
    assert_eq!(hits[0].title, "Sample");
    assert_eq!(hits[0].author, "X");
}

#[test]
fn search_matches_substrings_of_author_too() {
    let lib = sample_library();
    let hits = lib.search_by_text(&"Y".to_string());
    assert_eq!(hits.len(), 1);
    assert_eq!(hits[0].asset_id, "B2");
}

#[test]
fn search_is_case_sensitive() {
    let lib = sample_library();
    assert!(lib.search_by_text(&"sample".to_string()).is_empty());
}

#[test]
fn search_skips_rows_without_title() {
    let lib = sample_library();
    assert!(lib.search_by_text(&"Nameless".to_string()).is_empty());
}

#[test]
fn highlights_for_filters_by_asset_id_and_nonempty_text() {
    let mut ann = AnnotationStore::new();
    ann.add_row(ann_row("A1", "first"));
    ann.add_row(ann_row("B2", "other book"));
    ann.add_row(ann_row("A1", ""));
    ann.add_row(ann_row("A1", "second"));
    let raws = ann.highlights_for(&"A1".to_string());
    assert_eq!(raws, vec!["first".to_string(), "second".to_string()]);
}

#[test]
fn aggregate_cleans_and_attaches_highlights() {
    // library row {A1, Sample, X} with the three known annotations
    let mut ann = AnnotationStore::new();
    ann.add_row(ann_row("A1", "Hello[3] world\n"));
    ann.add_row(ann_row("A1", "(4)\n"));
    ann.add_row(ann_row("A1", ",already punctuated"));
    let row = lib_row("A1", "Sample", "X");
    let book = aggregate(&ann, &row);
    assert_eq!(book.asset_id, "A1");
    assert_eq!(book.title, "Sample");
    assert_eq!(book.author, "X");
    assert_eq!(book.highlights, vec![
        "\"Hello world\"".to_string(),
        "\"already punctuated\"".to_string(),
    ]);
}

#[test]
fn aggregate_uses_only_the_books_own_asset_id() {
    let mut ann = AnnotationStore::new();
    ann.add_row(ann_row("OTHER", "not this one"));
    ann.add_row(ann_row("A1", "mine"));
    ann.add_row(ann_row("OTHER2", "nor this"));
    let book = aggregate(&ann, &lib_row("A1", "Sample", "X"));
    assert_eq!(book.highlights, vec!["\"mine\"".to_string()]);

    // a store holding only the A1 rows gives the same highlights
    let mut only_mine = AnnotationStore::new();
    only_mine.add_row(ann_row("A1", "mine"));
    let same = aggregate(&only_mine, &lib_row("A1", "Sample", "X"));
    assert_eq!(book.highlights, same.highlights);
}

#[test]
fn aggregate_empty_annotations_gives_empty_highlights() {
    let ann = AnnotationStore::new();
    let book = aggregate(&ann, &lib_row("A1", "Sample", "X"));
    assert!(book.highlights.is_empty());
}

#[test]
fn aggregate_many_preserves_input_order() {
    let mut ann = AnnotationStore::new();
    ann.add_row(ann_row("A1", "one"));
    ann.add_row(ann_row("B2", "two"));
    let rows = vec![lib_row("B2", "Second Book", "Y"), lib_row("A1", "Sample", "X")];
    let books = aggregate_many(&ann, &rows);
    assert_eq!(books.len(), 2);
    assert_eq!(books[0].asset_id, "B2");
    assert_eq!(books[0].highlights, vec!["\"two\"".to_string()]);
    assert_eq!(books[1].asset_id, "A1");
    assert_eq!(books[1].highlights, vec!["\"one\"".to_string()]);
}
