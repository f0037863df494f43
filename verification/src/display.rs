//! Console presentation: display-only truncation of titles and authors, and
//! the tabular book listing.
//!
//! The display truncation is deliberately independent of the export
//! normalization: it serves console width, not persisted content.

use vstd::prelude::*;

use crate::book::Book;
use crate::book::BookModel;
use crate::chars::chars_to_string;
use crate::chars::is_strip_punct;
use crate::chars::to_chars;
use crate::text::strip_leading_punct;
use crate::text::trim;
use crate::text::trim_exec;

verus! {

/// An opening parenthesis, plain or fullwidth.
pub open spec fn is_open_paren(c: char) -> bool {
    c == '(' || c == '\u{FF08}'
}

fn is_open_paren_exec(c: char) -> (r: bool)
    ensures
        r == is_open_paren(c),
{
    c == '(' || c == '\u{FF08}'
}

/// A closing parenthesis, plain or fullwidth.
pub open spec fn is_close_paren(c: char) -> bool {
    c == ')' || c == '\u{FF09}'
}

fn is_close_paren_exec(c: char) -> (r: bool)
    ensures
        r == is_close_paren(c),
{
    c == ')' || c == '\u{FF09}'
}

/// Index of the first closing parenthesis in `s`, or -1 when there is none.
pub open spec fn close_paren_pos(s: Seq<char>) -> int
    decreases s.len(),
{
    if s.len() == 0 {
        -1
    } else if is_close_paren(s[0]) {
        0
    } else {
        let r = close_paren_pos(s.skip(1));
        if r == -1 {
            -1
        } else {
            1 + r
        }
    }
}

proof fn lemma_close_paren_pos_bounds(s: Seq<char>)
    ensures
        close_paren_pos(s) == -1 || (0 <= close_paren_pos(s) < s.len() && is_close_paren(
            s[close_paren_pos(s)],
        )),
    decreases s.len(),
{
    if s.len() == 0 {
    } else if is_close_paren(s[0]) {
    } else {
        lemma_close_paren_pos_bounds(s.skip(1));
    }
}

/// `s` with parenthetical asides removed: each run from an opening
/// parenthesis to the nearest closing one after it is dropped, left to right;
/// an opening parenthesis with no closing one keeps the rest unchanged.
pub open spec fn strip_parentheticals(s: Seq<char>) -> Seq<char>
    decreases s.len(),
    via strip_parentheticals_decreases
{
    if s.len() == 0 {
        Seq::empty()
    } else if is_open_paren(s[0]) {
        let c = close_paren_pos(s.skip(1));
        if c == -1 {
            s
        } else {
            strip_parentheticals(s.skip(2 + c))
        }
    } else {
        seq![s[0]] + strip_parentheticals(s.skip(1))
    }
}

#[via_fn]
proof fn strip_parentheticals_decreases(s: Seq<char>) {
    if s.len() > 0 && is_open_paren(s[0]) {
        lemma_close_paren_pos_bounds(s.skip(1));
    }
}

fn close_paren_from(v: &Vec<char>, from: usize) -> (r: Option<usize>)
    requires
        from <= v@.len(),
    ensures
        match r {
            Some(k) => from <= k < v@.len() && close_paren_pos(v@.skip(from as int)) == k - from,
            None => close_paren_pos(v@.skip(from as int)) == -1,
        },
{
    let n = v.len();
    let mut k: usize = from;
    proof {
        assert(v@.skip(from as int).skip(0) =~= v@.skip(from as int));
    }
    while k < n
        invariant
            from <= k <= n,
            n == v@.len(),
            close_paren_pos(v@.skip(from as int)) == (if close_paren_pos(v@.skip(k as int)) == -1 {
                -1
            } else {
                (k - from) + close_paren_pos(v@.skip(k as int))
            }),
        decreases n - k,
    {
        proof {
            assert(v@.skip(k as int).skip(1) =~= v@.skip(k + 1));
            assert(v@.skip(k as int)[0] == v@[k as int]);
        }
        if is_close_paren_exec(v[k]) {
            return Some(k);
        }
        proof {
            lemma_close_paren_pos_bounds(v@.skip(k + 1));
            assert(close_paren_pos(v@.skip(k as int)) == (if close_paren_pos(v@.skip(k + 1))
                == -1 {
                -1
            } else {
                1 + close_paren_pos(v@.skip(k + 1))
            }));
        }
        k = k + 1;
    }
    proof {
        assert(v@.skip(n as int) =~= Seq::<char>::empty());
    }
    None
}

/// Removes parenthetical asides from `v`.
fn strip_parentheticals_exec(v: &Vec<char>) -> (out: Vec<char>)
    ensures
        out@ == strip_parentheticals(v@),
{
    let n = v.len();
    let mut out: Vec<char> = Vec::new();
    let mut i: usize = 0;
    proof {
        assert(v@.skip(0) =~= v@);
        assert(out@ + strip_parentheticals(v@) =~= strip_parentheticals(v@));
    }
    while i < n
        invariant
            i <= n,
            n == v@.len(),
            strip_parentheticals(v@) == out@ + strip_parentheticals(v@.skip(i as int)),
        decreases n - i,
    {
        let c = v[i];
        proof {
            assert(v@.skip(i as int)[0] == v@[i as int]);
            assert(v@.skip(i as int).skip(1) =~= v@.skip(i + 1));
        }
        if is_open_paren_exec(c) {
            proof {
                assert(v@.skip(i as int).skip(1) =~= v@.skip(i + 1));
            }
            match close_paren_from(v, i + 1) {
                Some(k) => {
                    proof {
                        assert(v@.skip(i as int).skip(2 + (k - (i + 1))) =~= v@.skip(k + 1));
                    }
                    i = k + 1;
                },
                None => {
                    // no closing parenthesis: the rest is kept unchanged
                    let mut j: usize = i;
                    while j < n
                        invariant
                            i <= j <= n,
                            n == v@.len(),
                            strip_parentheticals(v@) == out@ + v@.skip(j as int),
                        decreases n - j,
                    {
                        proof {
                            assert(v@.skip(j as int) =~= seq![v@[j as int]] + v@.skip(j + 1));
                            assert(out@.push(v@[j as int]) + v@.skip(j + 1) =~= out@ + (
                            seq![v@[j as int]] + v@.skip(j + 1)));
                        }
                        out.push(v[j]);
                        j = j + 1;
                    }
                    proof {
                        assert(v@.skip(n as int) =~= Seq::<char>::empty());
                        assert(out@ + Seq::<char>::empty() =~= out@);
                    }
                    return out;
                },
            }
        } else {
            proof {
                assert(strip_parentheticals(v@.skip(i as int)) == seq![v@[i as int]]
                    + strip_parentheticals(v@.skip(i + 1)));
                assert(out@.push(v@[i as int]) + strip_parentheticals(v@.skip(i + 1)) =~= out@ + (
                seq![v@[i as int]] + strip_parentheticals(v@.skip(i + 1))));
            }
            out.push(c);
            i = i + 1;
        }
    }
    proof {
        assert(v@.skip(n as int) =~= Seq::<char>::empty());
        assert(out@ + Seq::<char>::empty() =~= out@);
    }
    out
}

/// The display form of a title or author: leading punctuation stripped,
/// parenthetical asides removed, truncated to at most 20 characters, trimmed.
pub open spec fn ellipsis_model(s: Seq<char>) -> Seq<char> {
    let p = strip_parentheticals(strip_leading_punct(s));
    if p.len() < 20 {
        trim(p)
    } else {
        trim(p.take(20))
    }
}

/// Truncates a title or author for the console listing.
pub fn ellipsis_text(text: String) -> (r: String)
    ensures
        r@ == ellipsis_model(text@),
{
    let cs = to_chars(text.as_str());
    let mut start: usize = 0;
    let n = cs.len();
    proof {
        assert(cs@.skip(0) =~= cs@);
    }
    while start < n && is_strip_punct(cs[start])
        invariant
            start <= n,
            n == cs@.len(),
            strip_leading_punct(cs@) == strip_leading_punct(cs@.skip(start as int)),
        decreases n - start,
    {
        proof {
            assert(cs@.skip(start as int).skip(1) =~= cs@.skip(start + 1));
        }
        start = start + 1;
    }
    proof {
        assert(strip_leading_punct(cs@.skip(start as int)) == cs@.skip(start as int));
    }
    let mut rest: Vec<char> = Vec::new();
    let mut k: usize = start;
    while k < n
        invariant
            start <= k <= n,
            n == cs@.len(),
            rest@ == cs@.skip(start as int).take(k - start),
        decreases n - k,
    {
        rest.push(cs[k]);
        k = k + 1;
        proof {
            assert(rest@ =~= cs@.skip(start as int).take(k - start));
        }
    }
    proof {
        assert(cs@.skip(start as int).take(n - start) =~= cs@.skip(start as int));
    }
    let p = strip_parentheticals_exec(&rest);
    let truncated = if p.len() < 20 {
        p
    } else {
        let mut t: Vec<char> = Vec::new();
        let mut j: usize = 0;
        while j < 20
            invariant
                j <= 20,
                p@.len() >= 20,
                t@ == p@.take(j as int),
            decreases 20 - j,
        {
            t.push(p[j]);
            j = j + 1;
            proof {
                assert(t@ =~= p@.take(j as int));
            }
        }
        t
    };
    let trimmed = trim_exec(&truncated);
    chars_to_string(&trimmed)
}

// ---------------------------------------------------------------------------
// Decimal rendering of the highlight count
// ---------------------------------------------------------------------------
/// The decimal digit character for `d`.
pub open spec fn digit_char(d: int) -> char {
    if d == 0 {
        '0'
    } else if d == 1 {
        '1'
    } else if d == 2 {
        '2'
    } else if d == 3 {
        '3'
    } else if d == 4 {
        '4'
    } else if d == 5 {
        '5'
    } else if d == 6 {
        '6'
    } else if d == 7 {
        '7'
    } else if d == 8 {
        '8'
    } else {
        '9'
    }
}

/// The decimal representation of `n`, most significant digit first.
pub open spec fn dec_chars(n: nat) -> Seq<char>
    decreases n,
{
    if n < 10 {
        seq![digit_char(n as int)]
    } else {
        dec_chars(n / 10) + seq![digit_char((n % 10) as int)]
    }
}

fn digit_exec(d: usize) -> (c: char)
    requires
        d < 10,
    ensures
        c == digit_char(d as int),
{
    if d == 0 {
        '0'
    } else if d == 1 {
        '1'
    } else if d == 2 {
        '2'
    } else if d == 3 {
        '3'
    } else if d == 4 {
        '4'
    } else if d == 5 {
        '5'
    } else if d == 6 {
        '6'
    } else if d == 7 {
        '7'
    } else if d == 8 {
        '8'
    } else {
        '9'
    }
}

/// Renders `n` in decimal.
pub fn usize_to_string(n: usize) -> (s: String)
    ensures
        s@ == dec_chars(n as nat),
{
    let mut digs: Vec<char> = Vec::new();
    let mut m: usize = n;
    proof {
        assert(dec_chars(n as nat) + Seq::<char>::empty() =~= dec_chars(n as nat));
    }
    while m >= 10
        invariant
            dec_chars(n as nat) == dec_chars(m as nat) + digs@,
        decreases m,
    {
        let d = digit_exec(m % 10);
        let ghost pre = digs@;
        digs.insert(0, d);
        proof {
            assert(digs@ =~= seq![digit_char((m % 10) as int)] + pre);
            assert(dec_chars(m as nat) == dec_chars((m / 10) as nat) + seq![digit_char(
                (m % 10) as int,
            )]);
            assert((dec_chars((m / 10) as nat) + seq![digit_char((m % 10) as int)]) + pre
                =~= dec_chars((m / 10) as nat) + (seq![digit_char((m % 10) as int)] + pre));
        }
        m = m / 10;
    }
    let d = digit_exec(m);
    let ghost pre = digs@;
    digs.insert(0, d);
    proof {
        assert(digs@ =~= seq![digit_char(m as int)] + pre);
    }
    chars_to_string(&digs)
}

// ---------------------------------------------------------------------------
// The tabular listing
// ---------------------------------------------------------------------------
/// The header row of the listing.
pub open spec fn header_model() -> Seq<Seq<char>> {
    seq!["AssetID"@, "Title"@, "Author"@, "Count"@]
}

/// The listing row for one book: asset id, truncated title and author, and
/// the highlight count.
pub open spec fn book_row_model(b: BookModel) -> Seq<Seq<char>> {
    seq![b.asset_id, ellipsis_model(b.title), ellipsis_model(b.author), dec_chars(
        b.highlights.len(),
    )]
}

/// The listing rows for a sequence of books, in order.
pub open spec fn book_rows_model(books: Seq<BookModel>) -> Seq<Seq<Seq<char>>>
    decreases books.len(),
{
    if books.len() == 0 {
        Seq::empty()
    } else {
        seq![book_row_model(books.first())] + book_rows_model(books.drop_first())
    }
}

/// The whole table: header first, then one row per book.
pub open spec fn table_model(books: Seq<BookModel>) -> Seq<Seq<Seq<char>>> {
    seq![header_model()] + book_rows_model(books)
}

fn book_row(b: &Book) -> (row: Vec<String>)
    ensures
        row.deep_view() == book_row_model(b@),
{
    let mut row: Vec<String> = Vec::new();
    row.push(b.asset_id.clone());
    row.push(ellipsis_text(b.title.clone()));
    row.push(ellipsis_text(b.author.clone()));
    row.push(usize_to_string(b.highlights.len()));
    proof {
        assert(row.deep_view() =~~= book_row_model(b@));
    }
    row
}

/// Builds the console table for a book listing: the header row followed by
/// one row per book, each holding asset id, truncated title, truncated
/// author, and highlight count.
pub fn library_table(books: &Vec<Book>) -> (t: Vec<Vec<String>>)
    ensures
        t.deep_view() == table_model(books.deep_view()),
{
    let mut t: Vec<Vec<String>> = Vec::new();
    let mut header: Vec<String> = Vec::new();
    header.push(String::from_str("AssetID"));
    header.push(String::from_str("Title"));
    header.push(String::from_str("Author"));
    header.push(String::from_str("Count"));
    proof {
        assert(header.deep_view() =~~= header_model());
    }
    t.push(header);
    proof {
        assert(t.deep_view() =~~= seq![header_model()]);
    }
    let n = books.len();
    let mut i: usize = 0;
    proof {
        assert(books.deep_view().skip(0) =~~= books.deep_view());
        assert(t.deep_view() + book_rows_model(books.deep_view()) =~~= table_model(
            books.deep_view(),
        ));
    }
    while i < n
        invariant
            i <= n,
            n == books@.len(),
            books.deep_view().len() == n,
            table_model(books.deep_view()) == t.deep_view() + book_rows_model(
                books.deep_view().skip(i as int),
            ),
        decreases n - i,
    {
        proof {
            let bv = books.deep_view();
            assert(bv.skip(i as int).first() == bv[i as int]);
            assert(bv.skip(i as int).drop_first() =~~= bv.skip(i + 1));
            assert(book_rows_model(bv.skip(i as int)) == seq![book_row_model(bv[i as int])]
                + book_rows_model(bv.skip(i + 1)));
            assert(books.deep_view()[i as int] == books@[i as int]@);
        }
        let row = book_row(&books[i]);
        let ghost pre = t.deep_view();
        let ghost rv = row.deep_view();
        t.push(row);
        proof {
            assert(t.deep_view() =~~= pre.push(rv));
            assert(pre.push(rv) + book_rows_model(books.deep_view().skip(i + 1)) =~~= pre + (
            seq![rv] + book_rows_model(books.deep_view().skip(i + 1))));
        }
        i = i + 1;
    }
    proof {
        let bv = books.deep_view();
        assert(bv.skip(n as int) =~~= Seq::<BookModel>::empty());
        assert(t.deep_view() + Seq::<Seq<Seq<char>>>::empty() =~~= t.deep_view());
    }
    t
}

/// Relies on prettytable's `Table`: adds one row per entry, in order, and
/// renders the table to standard output. Output only; nothing is promised of
/// it.
#[verifier::external_body]
fn table_print(content: Vec<Vec<String>>) {
    let mut table = prettytable::Table::new();
    for row in content {
        table.add_row(prettytable::Row::from(row));
    }
    table.printstd();
}

/// Prints the tabular book listing to the console.
pub fn print_library(libraries: Vec<Book>) {
    let t = library_table(&libraries);
    table_print(t);
}

} // verus!
