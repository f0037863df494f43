use bket::text::normalize;

fn frags(raw: &str) -> Vec<String> {
    normalize(raw)
}

#[test]
fn marker_is_removed_single_digit() {
    assert_eq!(frags("Hello[3] world\n"), vec!["\"Hello world\"".to_string()]);
}

#[test]
fn marker_is_removed_double_digit() {
    assert_eq!(frags("See[12]note"), vec!["\"Seenote\"".to_string()]);
}

#[test]
fn marker_never_appears_in_output() {
    let out = frags("alpha[7] beta[421] gamma[9]");
    for f in &out {
        assert!(!f.contains("[7]"));
        assert!(!f.contains("[9]"));
    }
    assert_eq!(out, vec!["\"alpha beta[421] gamma\"".to_string()]);
}

#[test]
fn three_digit_bracket_is_not_a_marker() {
    assert_eq!(frags("[123]"), vec!["\"[123]\"".to_string()]);
}

#[test]
fn letter_bracket_is_not_a_marker() {
    assert_eq!(frags("[a]"), vec!["\"[a]\"".to_string()]);
}

#[test]
fn paren_number_line_yields_nothing() {
    assert_eq!(frags("(4)\n"), Vec::<String>::new());
}

#[test]
fn empty_parens_line_yields_nothing() {
    assert_eq!(frags("()"), Vec::<String>::new());
}

#[test]
fn paren_number_with_spaces_yields_nothing() {
    assert_eq!(frags("  (17)  "), Vec::<String>::new());
}

#[test]
fn paren_number_with_text_is_kept() {
    assert_eq!(frags("(17) up"), vec!["\"(17) up\"".to_string()]);
}

#[test]
fn leading_punctuation_is_stripped() {
    assert_eq!(frags(",already punctuated"), vec!["\"already punctuated\"".to_string()]);
}

#[test]
fn leading_punctuation_run_is_stripped() {
    assert_eq!(frags("\u{FF0C}\u{3002}!xyz"), vec!["\"xyz\"".to_string()]);
}

#[test]
fn tabs_are_removed() {
    assert_eq!(frags("a\tb\tc"), vec!["\"abc\"".to_string()]);
}

#[test]
fn empty_blob_yields_nothing() {
    assert_eq!(frags(""), Vec::<String>::new());
}

#[test]
fn whitespace_blob_yields_nothing() {
    assert_eq!(frags("  \n   \n"), Vec::<String>::new());
}

#[test]
fn lines_keep_their_order() {
    assert_eq!(frags("one\ntwo\nthree"), vec![
        "\"one\"".to_string(),
        "\"two\"".to_string(),
        "\"three\"".to_string(),
    ]);
}

#[test]
fn fragment_count_at_most_nonempty_lines() {
    let raw = "a\n\n(2)\nb\n   \n";
    let nonempty = raw.split('\n').filter(|l| !l.trim().is_empty()).count();
    let out = frags(raw);
    assert!(out.len() <= nonempty);
    assert_eq!(out, vec!["\"a\"".to_string(), "\"b\"".to_string()]);
}

#[test]
fn renormalizing_a_fragment_is_stable() {
    let first = frags("Hello[3] world\n");
    assert_eq!(first.len(), 1);
    let quoted = &first[0];
    let unquoted = &quoted[1..quoted.len() - 1];
    assert_eq!(frags(unquoted), first);
}

#[test]
fn renormalizing_keeps_interior_punctuation() {
    let first = frags("stays; mid,text. here");
    assert_eq!(first, vec!["\"stays; mid,text. here\"".to_string()]);
    let quoted = &first[0];
    let unquoted = &quoted[1..quoted.len() - 1];
    assert_eq!(frags(unquoted), first);
}

#[test]
fn mixed_blob_full_pipeline() {
    let out = frags("  lead[5] text\n(9)\n,tail\tend  ");
    assert_eq!(out, vec!["\"lead text\"".to_string(), "\"tailend\"".to_string()]);
}
