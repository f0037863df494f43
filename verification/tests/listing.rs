use bket::book::Book;
use bket::display::ellipsis_text;
use bket::display::library_table;
use bket::display::usize_to_string;

fn book(asset_id: &str, title: &str, author: &str, highlights: Vec<&str>) -> Book {
    Book {
        asset_id: asset_id.to_string(),
        title: title.to_string(),
        author: author.to_string(),
        highlights: highlights.into_iter().map(|h| h.to_string()).collect(),
    }
}

#[test]
fn ellipsis_strips_leading_punctuation() {
    assert_eq!(ellipsis_text(",Comma Title".to_string()), "Comma Title");
}

#[test]
fn ellipsis_removes_parenthetical_asides() {
    assert_eq!(ellipsis_text("Title (aside) End".to_string()), "Title  End");
}

#[test]
fn ellipsis_removes_fullwidth_parentheticals() {
    assert_eq!(ellipsis_text("\u{FF08}x\u{FF09}Rest".to_string()), "Rest");
}

#[test]
fn ellipsis_keeps_unclosed_parenthesis() {
    assert_eq!(ellipsis_text("abc(def".to_string()), "abc(def");
}

#[test]
fn ellipsis_truncates_to_twenty_characters() {
    let long = "abcdefghijklmnopqrstuvwxyz";
    assert_eq!(ellipsis_text(long.to_string()), "abcdefghijklmnopqrst");
}

#[test]
fn ellipsis_short_text_is_trimmed_only() {
    assert_eq!(ellipsis_text("  short  ".to_string()), "short");
}

#[test]
fn decimal_rendering() {
    assert_eq!(usize_to_string(0), "0");
    assert_eq!(usize_to_string(7), "7");
    assert_eq!(usize_to_string(42), "42");
    assert_eq!(usize_to_string(1234567), "1234567");
}

#[test]
fn table_has_header_then_one_row_per_book() {
    let books = vec![
        book("A1", "Sample", "X", vec!["\"one\"", "\"two\""]),
        book("B2", "Second", "Y", vec![]),
    ];
    let t = library_table(&books);
    assert_eq!(t.len(), 3);
    assert_eq!(t[0], vec!["AssetID", "Title", "Author", "Count"]);
    assert_eq!(t[1], vec!["A1", "Sample", "X", "2"]);
    assert_eq!(t[2], vec!["B2", "Second", "Y", "0"]);
}
