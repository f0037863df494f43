use bket::book::Book;
use bket::export::bulk_outcomes;
use bket::export::export_content;
use bket::export::export_outcome;
use bket::export::export_path;
use bket::export::plan_export;
use bket::export::ExportError;
use bket::export::ExportOutcome;
use bket::export::ExportStep;

fn book(asset_id: &str, title: &str, highlights: Vec<&str>) -> Book {
    Book {
        asset_id: asset_id.to_string(),
        title: title.to_string(),
        author: String::new(),
        highlights: highlights.into_iter().map(|h| h.to_string()).collect(),
    }
}

#[test]
fn empty_highlights_is_skipped_not_failed() {
    let b = book("A1", "Sample", vec![]);
    let plan = plan_export(&b, &"./bket".to_string());
    assert!(matches!(plan, Ok(ExportStep::Skip)));
}

#[test]
fn empty_title_with_highlights_is_invalid_target() {
    let b = book("A1", "", vec!["\"kept\""]);
    let plan = plan_export(&b, &"./bket".to_string());
    assert_eq!(plan.unwrap_err(), ExportError::InvalidExportTarget);
}

#[test]
fn write_plan_has_exact_path_and_content() {
    let b = book("A1", "Sample", vec!["\"one\"", "\"two\""]);
    match plan_export(&b, &"./bket".to_string()) {
        Ok(ExportStep::Write { path, content }) => {
            assert_eq!(path, "./bket/Sample.md");
            assert_eq!(content, "\"one\"\n\n\"two\"");
        },
        other => panic!("expected a write plan, got {:?}", other.is_ok()),
    }
}

#[test]
fn single_fragment_has_no_separator() {
    let content = export_content(&vec!["\"only\"".to_string()]);
    assert_eq!(content, "\"only\"");
}

#[test]
fn no_fragments_give_empty_content() {
    let content = export_content(&Vec::new());
    assert_eq!(content, "");
}

#[test]
fn export_path_is_root_slash_title_md() {
    let p = export_path(&"./bket".to_string(), &"My Book".to_string());
    assert_eq!(p, "./bket/My Book.md");
}

#[test]
fn outcome_empty_ignores_write_result() {
    let b = book("A1", "Sample", vec![]);
    assert_eq!(export_outcome(&b, true), ExportOutcome::EmptySkipped);
    assert_eq!(export_outcome(&b, false), ExportOutcome::EmptySkipped);
}

#[test]
fn outcome_untitled_is_invalid_target() {
    let b = book("A1", "", vec!["\"x\""]);
    assert_eq!(export_outcome(&b, true), ExportOutcome::InvalidTarget);
}

#[test]
fn outcome_reports_write_result() {
    let b = book("A1", "Sample", vec!["\"x\""]);
    assert_eq!(export_outcome(&b, true), ExportOutcome::Written);
    assert_eq!(export_outcome(&b, false), ExportOutcome::WriteFailed);
}

#[test]
fn bulk_export_continues_past_a_failed_write() {
    // book 2 of 3 fails to write; books 1 and 3 are still written
    let books = vec![
        book("A1", "First", vec!["\"a\""]),
        book("B2", "Second", vec!["\"b\""]),
        book("C3", "Third", vec!["\"c\""]),
    ];
    let outcomes = bulk_outcomes(&books, &vec![true, false, true]);
    assert_eq!(outcomes, vec![
        ExportOutcome::Written,
        ExportOutcome::WriteFailed,
        ExportOutcome::Written,
    ]);
}

#[test]
fn bulk_export_mixes_skips_errors_and_writes() {
    let books = vec![
        book("A1", "First", vec![]),
        book("B2", "", vec!["\"b\""]),
        book("C3", "Third", vec!["\"c\""]),
    ];
    let outcomes = bulk_outcomes(&books, &vec![true, true, true]);
    assert_eq!(outcomes, vec![
        ExportOutcome::EmptySkipped,
        ExportOutcome::InvalidTarget,
        ExportOutcome::Written,
    ]);
}
