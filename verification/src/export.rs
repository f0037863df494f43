//! Export planning: turning a book into its deterministic export artifact.
//!
//! Writing the file is the caller's job; everything decidable from the book
//! alone is decided and proved here: whether anything is written at all,
//! which target path is used, and the exact file content.

use vstd::prelude::*;

use crate::book::Book;
use crate::book::BookModel;

verus! {

/// A per-book export failure.
#[derive(Clone, Copy, Debug, PartialEq, Eq, Structural)]
pub enum ExportError {
    /// The book has highlights but no title to name the file after.
    InvalidExportTarget,
    /// The file could not be written.
    WriteFailure,
}

/// What exporting one book amounts to.
#[derive(Debug)]
pub enum ExportStep {
    /// The book has no highlights: nothing is written, reported as empty.
    Skip,
    /// Write `content` to the file at `path`, overwriting any existing file.
    Write { path: String, content: String },
}

/// The export target path: `{root}/{title}.md`.
pub open spec fn path_model(root: Seq<char>, title: Seq<char>) -> Seq<char> {
    root + seq!['/'] + title + seq!['.', 'm', 'd']
}

/// Builds the export target path for a title under the export root.
pub fn export_path(export_root: &String, title: &String) -> (p: String)
    ensures
        p@ == path_model(export_root@, title@),
{
    let mut p = export_root.clone();
    p.append("/");
    p.append(title.as_str());
    p.append(".md");
    proof {
        reveal_strlit("/");
        reveal_strlit(".md");
        assert(p@ =~= path_model(export_root@, title@));
    }
    p
}

/// The file content: the fragments joined by one blank line.
pub open spec fn joined_content(frags: Seq<Seq<char>>) -> Seq<char>
    decreases frags.len(),
{
    if frags.len() == 0 {
        Seq::empty()
    } else if frags.len() == 1 {
        frags[0]
    } else {
        joined_content(frags.drop_last()) + seq!['\n', '\n'] + frags.last()
    }
}

/// Joins the highlight fragments with a blank line between fragments.
pub fn export_content(highlights: &Vec<String>) -> (s: String)
    ensures
        s@ == joined_content(highlights.deep_view()),
{
    let mut s = String::new();
    let n = highlights.len();
    let mut i: usize = 0;
    proof {
        assert(highlights.deep_view().take(0) =~~= Seq::<Seq<char>>::empty());
    }
    while i < n
        invariant
            i <= n,
            n == highlights@.len(),
            highlights.deep_view().len() == n,
            s@ == joined_content(highlights.deep_view().take(i as int)),
        decreases n - i,
    {
        proof {
            let hv = highlights.deep_view();
            assert(hv.take(i + 1).drop_last() =~~= hv.take(i as int));
            assert(hv.take(i + 1).last() == hv[i as int]);
            assert(hv[i as int] =~= highlights@[i as int]@);
        }
        if i > 0 {
            s.append("\n\n");
            proof {
                reveal_strlit("\n\n");
                assert("\n\n"@ =~= seq!['\n', '\n']);
            }
        }
        s.append(highlights[i].as_str());
        proof {
            let hv = highlights.deep_view();
            if i == 0 {
                assert(Seq::<char>::empty() + hv[0] =~= hv[0]);
                assert(joined_content(hv.take(1)) == hv.take(1)[0]);
            } else {
                assert(joined_content(hv.take(i + 1)) == joined_content(hv.take(i as int)) + seq![
                    '\n',
                    '\n',
                ] + hv[i as int]);
            }
            assert(s@ =~= joined_content(hv.take(i + 1)));
        }
        i = i + 1;
    }
    proof {
        assert(highlights.deep_view().take(n as int) =~~= highlights.deep_view());
    }
    s
}

/// Decides what exporting `book` under `export_root` amounts to.
///
/// Books without highlights are skipped and reported as empty rather than
/// failing; books with highlights but no title are refused with
/// `InvalidExportTarget`; otherwise the target path and the exact content are
/// returned for the caller to write.
pub fn plan_export(book: &Book, export_root: &String) -> (r: Result<ExportStep, ExportError>)
    ensures
        book@.highlights.len() == 0 ==> r == Ok::<ExportStep, ExportError>(ExportStep::Skip),
        book@.highlights.len() > 0 && book@.title.len() == 0 ==> r == Err::<
            ExportStep,
            ExportError,
        >(ExportError::InvalidExportTarget),
        book@.highlights.len() > 0 && book@.title.len() > 0 ==> (r matches Ok(
            ExportStep::Write { path, content },
        ) && path@ == path_model(export_root@, book@.title) && content@ == joined_content(
            book@.highlights,
        )),
{
    if book.highlights.len() == 0 {
        return Ok(ExportStep::Skip);
    }
    if book.title.as_str().unicode_len() == 0 {
        return Err(ExportError::InvalidExportTarget);
    }
    let path = export_path(export_root, &book.title);
    let content = export_content(&book.highlights);
    Ok(ExportStep::Write { path, content })
}

/// How exporting one book ended.
#[derive(Clone, Copy, Debug, PartialEq, Eq, Structural)]
pub enum ExportOutcome {
    /// Nothing to write; reported as empty, not an error.
    EmptySkipped,
    /// Highlights but no title; nothing written.
    InvalidTarget,
    /// The file was written.
    Written,
    /// The write failed; other books are unaffected.
    WriteFailed,
}

/// The outcome owed for one book, given whether its write succeeded.
pub open spec fn outcome_model(b: BookModel, write_ok: bool) -> ExportOutcome {
    if b.highlights.len() == 0 {
        ExportOutcome::EmptySkipped
    } else if b.title.len() == 0 {
        ExportOutcome::InvalidTarget
    } else if write_ok {
        ExportOutcome::Written
    } else {
        ExportOutcome::WriteFailed
    }
}

/// Records how exporting one book ended. `write_ok` is the caller's report of
/// the file write for this book; it is ignored for books where nothing is
/// written.
pub fn export_outcome(book: &Book, write_ok: bool) -> (o: ExportOutcome)
    ensures
        o == outcome_model(book@, write_ok),
{
    if book.highlights.len() == 0 {
        ExportOutcome::EmptySkipped
    } else if book.title.as_str().unicode_len() == 0 {
        ExportOutcome::InvalidTarget
    } else if write_ok {
        ExportOutcome::Written
    } else {
        ExportOutcome::WriteFailed
    }
}

/// The outcomes of a bulk export. Each book's outcome depends on that book
/// and its own write result alone, so one failed write never affects the
/// books after it.
pub fn bulk_outcomes(books: &Vec<Book>, write_oks: &Vec<bool>) -> (out: Vec<ExportOutcome>)
    requires
        write_oks@.len() == books@.len(),
    ensures
        out@.len() == books@.len(),
        forall|i: int|
            0 <= i < books@.len() ==> out@[i] == outcome_model(
                books.deep_view()[i],
                write_oks@[i],
            ),
{
    let n = books.len();
    let mut out: Vec<ExportOutcome> = Vec::new();
    let mut i: usize = 0;
    while i < n
        invariant
            i <= n,
            n == books@.len(),
            write_oks@.len() == n,
            out@.len() == i,
            forall|j: int|
                0 <= j < i ==> out@[j] == outcome_model(books.deep_view()[j], write_oks@[j]),
        decreases n - i,
    {
        let o = export_outcome(&books[i], write_oks[i]);
        out.push(o);
        proof {
            assert(books.deep_view()[i as int] == books@[i as int]@);
        }
        i = i + 1;
    }
    out
}

/// Relies on `std::path::Path::is_file`: whether a regular file exists at the
/// given path right now. The answer depends on the state of the file system,
/// so nothing is promised of it.
#[verifier::external_body]
fn path_is_file(path: &str) -> bool {
    std::path::Path::new(path).is_file()
}

/// Relies on `std::path::Path::is_dir`: whether a directory exists at the
/// given path right now. The answer depends on the state of the file system,
/// so nothing is promised of it.
#[verifier::external_body]
fn path_is_dir(path: &str) -> bool {
    std::path::Path::new(path).is_dir()
}

/// Whether a regular file already stands at `filename`. Advisory: the file
/// system may change at any time, so nothing is promised of the answer.
pub fn check_filename(filename: String) -> bool {
    path_is_file(filename.as_str())
}

/// Whether the directory at `path` exists. Advisory, as for `check_filename`.
pub fn check_dir_ok(path: &str) -> bool {
    path_is_dir(path)
}

/// Advisory collision check: whether a regular file already stands at the
/// export target `{root}/{title}.md`. Exporting overwrites it anyway; the
/// answer only drives a notice.
pub fn is_safe_target(title: &String, export_root: &String) -> bool {
    let p = export_path(export_root, title);
    check_filename(p)
}

} // verus!
