//! Read-only accessors over the two data stores.
//!
//! The library store holds one row per book (asset id, title, author) in
//! insertion order, the most recently added row last. The annotation store
//! holds one row per recorded annotation (asset id, raw text). Rows are loaded
//! by the caller from the underlying data source; the query logic over them is
//! verified here: which rows are visible, in what order, and which raw texts
//! belong to a given asset id.

use vstd::prelude::*;

verus! {

/// One row of the library store.
pub struct LibraryRow {
    pub asset_id: String,
    pub title: String,
    pub author: String,
}

/// The mathematical value of a library row.
pub struct LibraryRowModel {
    pub asset_id: Seq<char>,
    pub title: Seq<char>,
    pub author: Seq<char>,
}

impl View for LibraryRow {
    type V = LibraryRowModel;

    open spec fn view(&self) -> LibraryRowModel {
        LibraryRowModel { asset_id: self.asset_id@, title: self.title@, author: self.author@ }
    }
}

impl DeepView for LibraryRow {
    type V = LibraryRowModel;

    open spec fn deep_view(&self) -> LibraryRowModel {
        self.view()
    }
}

fn clone_library_row(r: &LibraryRow) -> (c: LibraryRow)
    ensures
        c@ == r@,
{
    LibraryRow {
        asset_id: r.asset_id.clone(),
        title: r.title.clone(),
        author: r.author.clone(),
    }
}

/// One row of the annotation store.
pub struct AnnotationRow {
    pub asset_id: String,
    pub text: String,
}

/// The mathematical value of an annotation row.
pub struct AnnotationRowModel {
    pub asset_id: Seq<char>,
    pub text: Seq<char>,
}

impl View for AnnotationRow {
    type V = AnnotationRowModel;

    open spec fn view(&self) -> AnnotationRowModel {
        AnnotationRowModel { asset_id: self.asset_id@, text: self.text@ }
    }
}

impl DeepView for AnnotationRow {
    type V = AnnotationRowModel;

    open spec fn deep_view(&self) -> AnnotationRowModel {
        self.view()
    }
}

// ---------------------------------------------------------------------------
// Library store
// ---------------------------------------------------------------------------
/// Rows with a non-empty title, most recently added first.
pub open spec fn newest_first(rows: Seq<LibraryRowModel>) -> Seq<LibraryRowModel>
    decreases rows.len(),
{
    if rows.len() == 0 {
        Seq::empty()
    } else if rows.last().title.len() > 0 {
        seq![rows.last()] + newest_first(rows.drop_last())
    } else {
        newest_first(rows.drop_last())
    }
}

/// The first row bearing `id` with a non-empty title, in insertion order.
pub open spec fn find_in_rows(rows: Seq<LibraryRowModel>, id: Seq<char>) -> Option<LibraryRowModel>
    decreases rows.len(),
{
    if rows.len() == 0 {
        None
    } else if rows.first().asset_id == id && rows.first().title.len() > 0 {
        Some(rows.first())
    } else {
        find_in_rows(rows.drop_first(), id)
    }
}

/// A row is reported by a free-text search for `q`: its title is non-empty
/// and `q` occurs in its title or its author, as a case-sensitive substring.
pub open spec fn search_matches(r: LibraryRowModel, q: Seq<char>) -> bool {
    r.title.len() > 0 && (crate::chars::contains_seq(r.title, q) || crate::chars::contains_seq(
        r.author,
        q,
    ))
}

/// Rows matching a free-text search, in insertion order.
pub open spec fn search_in_rows(rows: Seq<LibraryRowModel>, q: Seq<char>) -> Seq<LibraryRowModel>
    decreases rows.len(),
{
    if rows.len() == 0 {
        Seq::empty()
    } else if search_matches(rows.first(), q) {
        seq![rows.first()] + search_in_rows(rows.drop_first(), q)
    } else {
        search_in_rows(rows.drop_first(), q)
    }
}

/// Read-only accessor over the library metadata rows.
pub struct LibraryStore {
    pub rows: Vec<LibraryRow>,
}

impl View for LibraryStore {
    type V = Seq<LibraryRowModel>;

    open spec fn view(&self) -> Seq<LibraryRowModel> {
        self.rows.deep_view()
    }
}

impl LibraryStore {
    /// An empty store.
    pub fn new() -> (s: Self)
        ensures
            s@ == Seq::<LibraryRowModel>::empty(),
    {
        let s = LibraryStore { rows: Vec::new() };
        proof {
            assert(s@ =~= Seq::<LibraryRowModel>::empty());
        }
        s
    }

    /// Appends one row; rows are handed in oldest first.
    pub fn add_row(&mut self, row: LibraryRow)
        ensures
            final(self)@ == old(self)@.push(row@),
    {
        let ghost pre = old(self)@;
        let ghost rv = row@;
        self.rows.push(row);
        proof {
            assert(self@ =~= pre.push(rv));
        }
    }

    /// Every book with a non-empty title, most recently added first.
    pub fn all_books(&self) -> (out: Vec<LibraryRow>)
        ensures
            out.deep_view() == newest_first(self@),
    {
        let mut out: Vec<LibraryRow> = Vec::new();
        let mut i: usize = self.rows.len();
        proof {
            assert(self@.take(self.rows@.len() as int) =~= self@);
            assert(out.deep_view() + newest_first(self@) =~= newest_first(self@));
        }
        while i > 0
            invariant
                i <= self.rows@.len(),
                self@.len() == self.rows@.len(),
                newest_first(self@) == out.deep_view() + newest_first(self@.take(i as int)),
            decreases i,
        {
            let row = &self.rows[i - 1];
            proof {
                let t = self@.take(i as int);
                assert(t.last() == self@[i - 1]);
                assert(t.drop_last() =~= self@.take(i - 1));
            }
            if row.title.as_str().unicode_len() > 0 {
                proof {
                    assert(out.deep_view().push(self@[i - 1]) + newest_first(self@.take(i - 1))
                        =~~= out.deep_view() + (seq![self@[i - 1]] + newest_first(
                        self@.take(i - 1),
                    )));
                }
                let ghost pre = out.deep_view();
                let c = clone_library_row(row);
                let ghost cv = c@;
                out.push(c);
                proof {
                    assert(out.deep_view() =~~= pre.push(cv));
                }
            }
            i = i - 1;
        }
        proof {
            assert(self@.take(0) =~= Seq::<LibraryRowModel>::empty());
            assert(out.deep_view() + Seq::<LibraryRowModel>::empty() =~~= out.deep_view());
        }
        out
    }

    /// Zero or one row for an asset id; `None` exactly when no row bears the
    /// id with a non-empty title.
    pub fn find_by_asset_id(&self, asset_id: &String) -> (r: Option<LibraryRow>)
        ensures
            match r {
                Some(row) => find_in_rows(self@, asset_id@) == Some(row@),
                None => find_in_rows(self@, asset_id@) is None,
            },
    {
        let n = self.rows.len();
        let mut i: usize = 0;
        proof {
            assert(self@.skip(0) =~= self@);
        }
        while i < n
            invariant
                i <= n,
                n == self.rows@.len(),
                self@.len() == n,
                find_in_rows(self@, asset_id@) == find_in_rows(self@.skip(i as int), asset_id@),
            decreases n - i,
        {
            let row = &self.rows[i];
            proof {
                let t = self@.skip(i as int);
                assert(t.first() == self@[i as int]);
                assert(t.drop_first() =~= self@.skip(i + 1));
            }
            if row.asset_id == *asset_id && row.title.as_str().unicode_len() > 0 {
                return Some(clone_library_row(row));
            }
            i = i + 1;
        }
        proof {
            assert(self@.skip(n as int) =~= Seq::<LibraryRowModel>::empty());
        }
        None
    }

    /// Every row whose title or author contains `q` as a case-sensitive
    /// substring (and whose title is non-empty), in insertion order.
    pub fn search_by_text(&self, q: &String) -> (out: Vec<LibraryRow>)
        ensures
            out.deep_view() == search_in_rows(self@, q@),
    {
        let n = self.rows.len();
        let mut out: Vec<LibraryRow> = Vec::new();
        let mut i: usize = 0;
        proof {
            assert(self@.skip(0) =~= self@);
            assert(out.deep_view() + search_in_rows(self@, q@) =~= search_in_rows(self@, q@));
        }
        while i < n
            invariant
                i <= n,
                n == self.rows@.len(),
                self@.len() == n,
                search_in_rows(self@, q@) == out.deep_view() + search_in_rows(
                    self@.skip(i as int),
                    q@,
                ),
            decreases n - i,
        {
            let row = &self.rows[i];
            proof {
                let t = self@.skip(i as int);
                assert(t.first() == self@[i as int]);
                assert(t.drop_first() =~= self@.skip(i + 1));
            }
            let title_nonempty = row.title.as_str().unicode_len() > 0;
            let hit = title_nonempty && (crate::chars::str_contains(
                row.title.as_str(),
                q.as_str(),
            ) || crate::chars::str_contains(row.author.as_str(), q.as_str()));
            if hit {
                proof {
                    assert(out.deep_view().push(self@[i as int]) + search_in_rows(
                        self@.skip(i + 1),
                        q@,
                    ) =~~= out.deep_view() + (seq![self@[i as int]] + search_in_rows(
                        self@.skip(i + 1),
                        q@,
                    )));
                }
                let ghost pre = out.deep_view();
                let c = clone_library_row(row);
                let ghost cv = c@;
                out.push(c);
                proof {
                    assert(out.deep_view() =~~= pre.push(cv));
                }
            }
            i = i + 1;
        }
        proof {
            assert(self@.skip(n as int) =~= Seq::<LibraryRowModel>::empty());
            assert(out.deep_view() + Seq::<LibraryRowModel>::empty() =~~= out.deep_view());
        }
        out
    }
}

// ---------------------------------------------------------------------------
// Annotation store
// ---------------------------------------------------------------------------
/// The raw annotation texts recorded for `id` whose text is non-empty, in
/// row order.
pub open spec fn raw_texts_for(rows: Seq<AnnotationRowModel>, id: Seq<char>) -> Seq<Seq<char>>
    decreases rows.len(),
{
    if rows.len() == 0 {
        Seq::empty()
    } else if rows.first().asset_id == id && rows.first().text.len() > 0 {
        seq![rows.first().text] + raw_texts_for(rows.drop_first(), id)
    } else {
        raw_texts_for(rows.drop_first(), id)
    }
}

/// Read-only accessor over the annotation rows.
pub struct AnnotationStore {
    pub rows: Vec<AnnotationRow>,
}

impl View for AnnotationStore {
    type V = Seq<AnnotationRowModel>;

    open spec fn view(&self) -> Seq<AnnotationRowModel> {
        self.rows.deep_view()
    }
}

impl AnnotationStore {
    /// An empty store.
    pub fn new() -> (s: Self)
        ensures
            s@ == Seq::<AnnotationRowModel>::empty(),
    {
        let s = AnnotationStore { rows: Vec::new() };
        proof {
            assert(s@ =~= Seq::<AnnotationRowModel>::empty());
        }
        s
    }

    /// Appends one row; rows are handed in store order.
    pub fn add_row(&mut self, row: AnnotationRow)
        ensures
            final(self)@ == old(self)@.push(row@),
    {
        let ghost pre = old(self)@;
        let ghost rv = row@;
        self.rows.push(row);
        proof {
            assert(self@ =~= pre.push(rv));
        }
    }

    /// The raw annotation texts for one asset id, non-empty texts only, in
    /// row order.
    pub fn highlights_for(&self, asset_id: &String) -> (out: Vec<String>)
        ensures
            out.deep_view() == raw_texts_for(self@, asset_id@),
    {
        let n = self.rows.len();
        let mut out: Vec<String> = Vec::new();
        let mut i: usize = 0;
        proof {
            assert(self@.skip(0) =~= self@);
            assert(out.deep_view() + raw_texts_for(self@, asset_id@) =~= raw_texts_for(
                self@,
                asset_id@,
            ));
        }
        while i < n
            invariant
                i <= n,
                n == self.rows@.len(),
                self@.len() == n,
                raw_texts_for(self@, asset_id@) == out.deep_view() + raw_texts_for(
                    self@.skip(i as int),
                    asset_id@,
                ),
            decreases n - i,
        {
            let row = &self.rows[i];
            proof {
                let t = self@.skip(i as int);
                assert(t.first() == self@[i as int]);
                assert(t.drop_first() =~= self@.skip(i + 1));
            }
            if row.asset_id == *asset_id && row.text.as_str().unicode_len() > 0 {
                proof {
                    assert(out.deep_view().push(self@[i as int].text) + raw_texts_for(
                        self@.skip(i + 1),
                        asset_id@,
                    ) =~~= out.deep_view() + (seq![self@[i as int].text] + raw_texts_for(
                        self@.skip(i + 1),
                        asset_id@,
                    )));
                }
                let ghost pre = out.deep_view();
                let t = row.text.clone();
                let ghost tv = t@;
                out.push(t);
                proof {
                    assert(out.deep_view() =~~= pre.push(tv));
                }
            }
            i = i + 1;
        }
        proof {
            assert(self@.skip(n as int) =~= Seq::<AnnotationRowModel>::empty());
            assert(out.deep_view() + Seq::<Seq<char>>::empty() =~~= out.deep_view());
        }
        out
    }
}

} // verus!
