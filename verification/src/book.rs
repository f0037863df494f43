//! The aggregate `Book` entity: one library row joined with its cleaned
//! highlights.

use vstd::prelude::*;

use crate::store::AnnotationRowModel;
use crate::store::AnnotationStore;
use crate::store::LibraryRow;
use crate::store::LibraryRowModel;
use crate::store::raw_texts_for;
use crate::text::normalize;
use crate::text::normalize_spec;

verus! {

/// A book with its cleaned highlight fragments attached.
pub struct Book {
    pub asset_id: String,
    pub title: String,
    pub author: String,
    pub highlights: Vec<String>,
}

/// The mathematical value of a book.
pub struct BookModel {
    pub asset_id: Seq<char>,
    pub title: Seq<char>,
    pub author: Seq<char>,
    pub highlights: Seq<Seq<char>>,
}

impl View for Book {
    type V = BookModel;

    open spec fn view(&self) -> BookModel {
        BookModel {
            asset_id: self.asset_id@,
            title: self.title@,
            author: self.author@,
            highlights: self.highlights.deep_view(),
        }
    }
}

impl DeepView for Book {
    type V = BookModel;

    open spec fn deep_view(&self) -> BookModel {
        self.view()
    }
}

/// All cleaned fragments of a sequence of raw annotation blobs, flattened in
/// order.
pub open spec fn cleaned_highlights(raws: Seq<Seq<char>>) -> Seq<Seq<char>>
    decreases raws.len(),
{
    if raws.len() == 0 {
        Seq::empty()
    } else {
        normalize_spec(raws.first()) + cleaned_highlights(raws.drop_first())
    }
}

/// The book obtained by joining one library row with the annotation rows
/// bearing its asset id and cleaning each raw text.
pub open spec fn aggregate_model(row: LibraryRowModel, anns: Seq<AnnotationRowModel>) -> BookModel {
    BookModel {
        asset_id: row.asset_id,
        title: row.title,
        author: row.author,
        highlights: cleaned_highlights(raw_texts_for(anns, row.asset_id)),
    }
}

/// The highlights attached to a book derive only from the annotation rows
/// bearing that book's asset id: two annotation stores that agree on those
/// rows yield the same highlights for it.
pub proof fn lemma_aggregate_join_correct(
    row: LibraryRowModel,
    anns1: Seq<AnnotationRowModel>,
    anns2: Seq<AnnotationRowModel>,
)
    requires
        raw_texts_for(anns1, row.asset_id) == raw_texts_for(anns2, row.asset_id),
    ensures
        aggregate_model(row, anns1).highlights == aggregate_model(row, anns2).highlights,
{
}

/// Joins one library row with its annotations and cleans every raw text,
/// preserving store order.
pub fn aggregate(annotations: &AnnotationStore, row: &LibraryRow) -> (b: Book)
    ensures
        b@ == aggregate_model(row@, annotations@),
{
    let raws = annotations.highlights_for(&row.asset_id);
    let mut highlights: Vec<String> = Vec::new();
    let n = raws.len();
    let mut i: usize = 0;
    proof {
        assert(raws.deep_view().skip(0) =~~= raws.deep_view());
        assert(highlights.deep_view() + cleaned_highlights(raws.deep_view())
            =~~= cleaned_highlights(raws.deep_view()));
    }
    while i < n
        invariant
            i <= n,
            n == raws@.len(),
            raws.deep_view().len() == n,
            cleaned_highlights(raws.deep_view()) == highlights.deep_view() + cleaned_highlights(
                raws.deep_view().skip(i as int),
            ),
        decreases n - i,
    {
        proof {
            let rv = raws.deep_view();
            assert(rv.skip(i as int).first() == rv[i as int]);
            assert(rv.skip(i as int).drop_first() =~~= rv.skip(i + 1));
            assert(cleaned_highlights(rv.skip(i as int)) == normalize_spec(rv[i as int])
                + cleaned_highlights(rv.skip(i + 1)));
            assert(raws.deep_view()[i as int] =~= raws@[i as int]@);
        }
        let mut frags = normalize(raws[i].as_str());
        let ghost fragsview = frags.deep_view();
        let ghost pre = highlights.deep_view();
        highlights.append(&mut frags);
        proof {
            assert(highlights.deep_view() =~~= pre + fragsview);
            let rv = raws.deep_view();
            assert((pre + normalize_spec(rv[i as int])) + cleaned_highlights(rv.skip(i + 1))
                =~~= pre + (normalize_spec(rv[i as int]) + cleaned_highlights(rv.skip(i + 1))));
        }
        i = i + 1;
    }
    proof {
        let rv = raws.deep_view();
        assert(rv.skip(n as int) =~~= Seq::<Seq<char>>::empty());
        assert(highlights.deep_view() + Seq::<Seq<char>>::empty() =~~= highlights.deep_view());
    }
    let b = Book {
        asset_id: row.asset_id.clone(),
        title: row.title.clone(),
        author: row.author.clone(),
        highlights,
    };
    proof {
        assert(b@ =~~= aggregate_model(row@, annotations@));
    }
    b
}

/// Aggregates each row in input order.
pub fn aggregate_many(annotations: &AnnotationStore, rows: &Vec<LibraryRow>) -> (bs: Vec<Book>)
    ensures
        bs@.len() == rows@.len(),
        forall|i: int|
            0 <= i < rows@.len() ==> bs.deep_view()[i] == aggregate_model(
                rows.deep_view()[i],
                annotations@,
            ),
{
    let mut bs: Vec<Book> = Vec::new();
    let n = rows.len();
    let mut i: usize = 0;
    while i < n
        invariant
            i <= n,
            n == rows@.len(),
            bs@.len() == i,
            forall|j: int|
                0 <= j < i ==> bs.deep_view()[j] == aggregate_model(
                    rows.deep_view()[j],
                    annotations@,
                ),
        decreases n - i,
    {
        let b = aggregate(annotations, &rows[i]);
        let ghost pre = bs.deep_view();
        let ghost bv = b@;
        bs.push(b);
        proof {
            assert(bs.deep_view() =~~= pre.push(bv));
            assert(rows.deep_view()[i as int] == rows@[i as int]@);
        }
        i = i + 1;
    }
    bs
}

} // verus!
