//! Normalization of raw annotation text into presentable fragments.
//!
//! One raw annotation blob may hold several newline-delimited sub-highlights.
//! Cleaning proceeds in stages: bracketed numeric footnote markers such as
//! `[3]` or `[12]` are removed anywhere in the blob, the blob is split on
//! newlines, each line is trimmed, lines that are empty or consist entirely of
//! a parenthesized number such as `(3)` are dropped, a leading run of
//! punctuation is stripped, embedded tabs are removed, and the surviving text
//! is trimmed again and wrapped in double quotes.

use vstd::prelude::*;

use crate::chars::chars_to_string;
use crate::chars::is_digit;
use crate::chars::is_digit_char;
use crate::chars::is_space;
use crate::chars::is_space_char;
use crate::chars::is_strip_punct;
use crate::chars::is_strip_punct_char;
use crate::chars::to_chars;

verus! {

// ---------------------------------------------------------------------------
// Footnote markers
// ---------------------------------------------------------------------------
/// Length of the bracketed numeric marker standing at the front of `s`:
/// 3 for `[d]`, 4 for `[dd]`, 0 when no marker starts there.
pub open spec fn marker_len_at(s: Seq<char>) -> int {
    if s.len() >= 3 && s[0] == '[' && is_digit_char(s[1]) && s[2] == ']' {
        3
    } else if s.len() >= 4 && s[0] == '[' && is_digit_char(s[1]) && is_digit_char(s[2]) && s[3]
        == ']' {
        4
    } else {
        0
    }
}

/// A single- or double-digit bracketed marker occurs in `s` at index `j`.
pub open spec fn marker_at(s: Seq<char>, j: int) -> bool {
    0 <= j && ((j + 3 <= s.len() && s[j] == '[' && is_digit_char(s[j + 1]) && s[j + 2] == ']') || (
    j + 4 <= s.len() && s[j] == '[' && is_digit_char(s[j + 1]) && is_digit_char(s[j + 2]) && s[j
        + 3] == ']'))
}

/// Some bracketed numeric marker occurs somewhere in `s`.
pub open spec fn has_marker(s: Seq<char>) -> bool {
    exists|j: int| marker_at(s, j)
}

/// `s` with every bracketed numeric marker removed, scanning left to right.
pub open spec fn strip_markers(s: Seq<char>) -> Seq<char>
    decreases s.len(),
{
    if s.len() == 0 {
        Seq::empty()
    } else if marker_len_at(s) > 0 {
        strip_markers(s.skip(marker_len_at(s)))
    } else {
        seq![s[0]] + strip_markers(s.skip(1))
    }
}

fn marker_len(v: &Vec<char>, i: usize) -> (r: usize)
    requires
        i <= v@.len(),
    ensures
        r == marker_len_at(v@.skip(i as int)),
{
    let n = v.len();
    if n - i >= 3 && v[i] == '[' && is_digit(v[i + 1]) && v[i + 2] == ']' {
        3
    } else if n - i >= 4 && v[i] == '[' && is_digit(v[i + 1]) && is_digit(v[i + 2]) && v[i + 3]
        == ']' {
        4
    } else {
        0
    }
}

/// Removes every bracketed numeric marker from `v`.
pub fn strip_markers_exec(v: &Vec<char>) -> (out: Vec<char>)
    ensures
        out@ == strip_markers(v@),
{
    let mut out: Vec<char> = Vec::new();
    let mut i: usize = 0;
    proof {
        assert(v@.skip(0) =~= v@);
        assert(out@ + strip_markers(v@) =~= strip_markers(v@));
    }
    while i < v.len()
        invariant
            i <= v@.len(),
            strip_markers(v@) == out@ + strip_markers(v@.skip(i as int)),
        decreases v@.len() - i,
    {
        let m = marker_len(v, i);
        if m > 0 {
            proof {
                assert(v@.skip(i as int).skip(m as int) =~= v@.skip(i + m));
            }
            i = i + m;
        } else {
            let c = v[i];
            proof {
                assert(v@.skip(i as int).skip(1) =~= v@.skip(i + 1));
                assert(strip_markers(v@.skip(i as int)) == seq![v@[i as int]] + strip_markers(
                    v@.skip(i + 1),
                ));
                assert(out@.push(v@[i as int]) + strip_markers(v@.skip(i + 1)) =~= out@ + (
                seq![v@[i as int]] + strip_markers(v@.skip(i + 1))));
            }
            out.push(c);
            i = i + 1;
        }
    }
    proof {
        assert(v@.skip(v@.len() as int) =~= Seq::<char>::empty());
        assert(out@ + Seq::<char>::empty() =~= out@);
    }
    out
}

// ---------------------------------------------------------------------------
// Splitting into lines
// ---------------------------------------------------------------------------
/// The newline-delimited lines of `s`, in order. Splitting the empty sequence
/// yields one empty line, matching the usual splitting convention.
pub open spec fn split_lines(s: Seq<char>) -> Seq<Seq<char>>
    decreases s.len(),
{
    if s.len() == 0 {
        seq![Seq::<char>::empty()]
    } else if s[0] == '\n' {
        seq![Seq::<char>::empty()] + split_lines(s.skip(1))
    } else {
        let rest = split_lines(s.skip(1));
        seq![seq![s[0]] + rest[0]] + rest.drop_first()
    }
}

pub proof fn lemma_split_lines_nonempty(s: Seq<char>)
    ensures
        split_lines(s).len() >= 1,
    decreases s.len(),
{
    if s.len() == 0 {
    } else {
        lemma_split_lines_nonempty(s.skip(1));
    }
}

/// `ls` with `p` prepended onto its first entry.
pub open spec fn cons_head(p: Seq<char>, ls: Seq<Seq<char>>) -> Seq<Seq<char>> {
    seq![p + ls[0]] + ls.drop_first()
}

/// Splits `v` on newline characters.
pub fn split_lines_exec(v: &Vec<char>) -> (out: Vec<Vec<char>>)
    ensures
        out.deep_view() == split_lines(v@),
{
    let mut out: Vec<Vec<char>> = Vec::new();
    let mut cur: Vec<char> = Vec::new();
    let mut i: usize = 0;
    proof {
        assert(v@.skip(0) =~= v@);
        lemma_split_lines_nonempty(v@);
        assert(cons_head(Seq::<char>::empty(), split_lines(v@)) =~~= split_lines(v@));
        assert(out.deep_view() + split_lines(v@) =~~= split_lines(v@));
    }
    while i < v.len()
        invariant
            i <= v@.len(),
            split_lines(v@) == out.deep_view() + cons_head(cur@, split_lines(v@.skip(i as int))),
        decreases v@.len() - i,
    {
        let c = v[i];
        proof {
            assert(v@.skip(i as int).skip(1) =~= v@.skip(i + 1));
            lemma_split_lines_nonempty(v@.skip(i + 1));
        }
        if c == '\n' {
            proof {
                assert(split_lines(v@.skip(i as int)) == seq![Seq::<char>::empty()] + split_lines(
                    v@.skip(i + 1),
                ));
                assert(cons_head(cur@, split_lines(v@.skip(i as int))) =~~= seq![cur@] + cons_head(
                    Seq::<char>::empty(),
                    split_lines(v@.skip(i + 1)),
                ));
                assert(out.deep_view().push(cur@) + cons_head(
                    Seq::<char>::empty(),
                    split_lines(v@.skip(i + 1)),
                ) =~~= out.deep_view() + (seq![cur@] + cons_head(
                    Seq::<char>::empty(),
                    split_lines(v@.skip(i + 1)),
                )));
            }
            let ghost pre = out.deep_view();
            let finished = cur;
            out.push(finished);
            cur = Vec::new();
            proof {
                assert(out.deep_view() =~~= pre.push(finished@));
            }
        } else {
            proof {
                let rest = split_lines(v@.skip(i + 1));
                assert(split_lines(v@.skip(i as int)) == seq![seq![v@[i as int]] + rest[0]]
                    + rest.drop_first());
                assert(cons_head(cur@, split_lines(v@.skip(i as int))) =~~= cons_head(
                    cur@.push(v@[i as int]),
                    rest,
                ));
            }
            cur.push(c);
        }
        i = i + 1;
    }
    proof {
        assert(v@.skip(v@.len() as int) =~= Seq::<char>::empty());
        assert(cons_head(cur@, split_lines(Seq::<char>::empty())) =~~= seq![cur@]);
    }
    let ghost pre = out.deep_view();
    let ghost curview = cur@;
    out.push(cur);
    proof {
        assert(out.deep_view() =~~= pre.push(curview));
        assert(pre.push(curview) =~~= pre + seq![curview]);
    }
    out
}

// ---------------------------------------------------------------------------
// Per-line cleaning
// ---------------------------------------------------------------------------
/// `s` with leading whitespace removed.
pub open spec fn trim_front(s: Seq<char>) -> Seq<char>
    decreases s.len(),
{
    if s.len() > 0 && is_space_char(s[0]) {
        trim_front(s.skip(1))
    } else {
        s
    }
}

/// `s` with trailing whitespace removed.
pub open spec fn trim_back(s: Seq<char>) -> Seq<char>
    decreases s.len(),
{
    if s.len() > 0 && is_space_char(s[s.len() - 1]) {
        trim_back(s.take(s.len() - 1))
    } else {
        s
    }
}

/// `s` with leading and trailing whitespace removed.
pub open spec fn trim(s: Seq<char>) -> Seq<char> {
    trim_back(trim_front(s))
}

/// Trims leading and trailing whitespace characters.
pub fn trim_exec(v: &Vec<char>) -> (out: Vec<char>)
    ensures
        out@ == trim(v@),
{
    let n = v.len();
    let mut start: usize = 0;
    proof {
        assert(v@.skip(0) =~= v@);
    }
    while start < n && is_space(v[start])
        invariant
            n == v@.len(),
            start <= n,
            trim_front(v@) == trim_front(v@.skip(start as int)),
        decreases n - start,
    {
        proof {
            assert(v@.skip(start as int).skip(1) =~= v@.skip(start + 1));
        }
        start = start + 1;
    }
    proof {
        assert(trim_front(v@.skip(start as int)) == v@.skip(start as int));
    }
    let mut end: usize = n;
    proof {
        assert(v@.skip(start as int).take(n - start) =~= v@.skip(start as int));
    }
    while end > start && is_space(v[end - 1])
        invariant
            n == v@.len(),
            start <= end <= n,
            trim_back(v@.skip(start as int)) == trim_back(v@.skip(start as int).take(end - start)),
        decreases end,
    {
        proof {
            let u = v@.skip(start as int);
            assert(u.take(end - start)[end - start - 1] == v@[end - 1]);
            assert(u.take(end - start).take(end - start - 1) =~= u.take(end - start - 1));
        }
        end = end - 1;
    }
    proof {
        let u = v@.skip(start as int);
        assert(trim_back(u.take(end - start)) == u.take(end - start));
    }
    let mut out: Vec<char> = Vec::new();
    let mut k: usize = start;
    while k < end
        invariant
            n == v@.len(),
            start <= k <= end <= n,
            out@ == v@.skip(start as int).take(k - start),
        decreases end - k,
    {
        out.push(v[k]);
        k = k + 1;
        proof {
            assert(out@ =~= v@.skip(start as int).take(k - start));
        }
    }
    out
}

/// `s` is entirely a parenthesized number: `(` then zero or more digits then `)`.
pub open spec fn is_paren_number(s: Seq<char>) -> bool {
    s.len() >= 2 && s[0] == '(' && s[s.len() - 1] == ')' && (forall|i: int|
        1 <= i < s.len() - 1 ==> is_digit_char(s[i]))
}

fn paren_number_exec(v: &Vec<char>) -> (r: bool)
    ensures
        r == is_paren_number(v@),
{
    let n = v.len();
    if n < 2 {
        return false;
    }
    if v[0] != '(' || v[n - 1] != ')' {
        return false;
    }
    let mut i: usize = 1;
    while i < n - 1
        invariant
            n == v@.len(),
            2 <= n,
            v@[0] == '(',
            v@[n - 1] == ')',
            1 <= i <= n - 1,
            forall|j: int| 1 <= j < i ==> is_digit_char(v@[j]),
        decreases n - 1 - i,
    {
        if !is_digit(v[i]) {
            return false;
        }
        i = i + 1;
    }
    true
}

/// `s` with its leading run of strip-punctuation removed.
pub open spec fn strip_leading_punct(s: Seq<char>) -> Seq<char>
    decreases s.len(),
{
    if s.len() > 0 && is_strip_punct_char(s[0]) {
        strip_leading_punct(s.skip(1))
    } else {
        s
    }
}

fn strip_leading_punct_exec(v: &Vec<char>) -> (out: Vec<char>)
    ensures
        out@ == strip_leading_punct(v@),
{
    let n = v.len();
    let mut start: usize = 0;
    proof {
        assert(v@.skip(0) =~= v@);
    }
    while start < n && is_strip_punct(v[start])
        invariant
            n == v@.len(),
            start <= n,
            strip_leading_punct(v@) == strip_leading_punct(v@.skip(start as int)),
        decreases n - start,
    {
        proof {
            assert(v@.skip(start as int).skip(1) =~= v@.skip(start + 1));
        }
        start = start + 1;
    }
    proof {
        assert(strip_leading_punct(v@.skip(start as int)) == v@.skip(start as int));
    }
    let mut out: Vec<char> = Vec::new();
    let mut k: usize = start;
    while k < n
        invariant
            n == v@.len(),
            start <= k <= n,
            out@ == v@.skip(start as int).take(k - start),
        decreases n - k,
    {
        out.push(v[k]);
        k = k + 1;
        proof {
            assert(out@ =~= v@.skip(start as int).take(k - start));
        }
    }
    proof {
        assert(v@.skip(start as int).take(n - start) =~= v@.skip(start as int));
    }
    out
}

/// `s` with every tab character removed.
pub open spec fn remove_tabs(s: Seq<char>) -> Seq<char>
    decreases s.len(),
{
    if s.len() == 0 {
        Seq::empty()
    } else if s[0] == '\t' {
        remove_tabs(s.skip(1))
    } else {
        seq![s[0]] + remove_tabs(s.skip(1))
    }
}

fn remove_tabs_exec(v: &Vec<char>) -> (out: Vec<char>)
    ensures
        out@ == remove_tabs(v@),
{
    let mut out: Vec<char> = Vec::new();
    let mut i: usize = 0;
    proof {
        assert(v@.skip(0) =~= v@);
        assert(out@ + remove_tabs(v@) =~= remove_tabs(v@));
    }
    while i < v.len()
        invariant
            i <= v@.len(),
            remove_tabs(v@) == out@ + remove_tabs(v@.skip(i as int)),
        decreases v@.len() - i,
    {
        let c = v[i];
        proof {
            assert(v@.skip(i as int).skip(1) =~= v@.skip(i + 1));
        }
        if c != '\t' {
            proof {
                assert(remove_tabs(v@.skip(i as int)) == seq![v@[i as int]] + remove_tabs(
                    v@.skip(i + 1),
                ));
                assert(out@.push(v@[i as int]) + remove_tabs(v@.skip(i + 1)) =~= out@ + (
                seq![v@[i as int]] + remove_tabs(v@.skip(i + 1))));
            }
            out.push(c);
        }
        i = i + 1;
    }
    proof {
        assert(v@.skip(v@.len() as int) =~= Seq::<char>::empty());
        assert(out@ + Seq::<char>::empty() =~= out@);
    }
    out
}

/// `s` wrapped in double quotes.
pub open spec fn quote(s: Seq<char>) -> Seq<char> {
    seq!['"'] + s + seq!['"']
}

/// The fragments a single line contributes: none when the trimmed line is
/// empty or entirely a parenthesized number, otherwise exactly the cleaned,
/// quoted text.
pub open spec fn line_fragments(line: Seq<char>) -> Seq<Seq<char>> {
    let t = trim(line);
    if t.len() == 0 {
        Seq::empty()
    } else if is_paren_number(t) {
        Seq::empty()
    } else {
        seq![quote(trim(remove_tabs(strip_leading_punct(t))))]
    }
}

/// Cleans one candidate line; `None` when the line is discarded.
pub fn clean_line(line: &Vec<char>) -> (out: Option<Vec<char>>)
    ensures
        match out {
            Some(f) => line_fragments(line@) == seq![f@],
            None => line_fragments(line@) == Seq::<Seq<char>>::empty(),
        },
{
    let t = trim_exec(line);
    if t.len() == 0 {
        return None;
    }
    if paren_number_exec(&t) {
        return None;
    }
    let p = strip_leading_punct_exec(&t);
    let nt = remove_tabs_exec(&p);
    let f = trim_exec(&nt);
    let mut q: Vec<char> = Vec::new();
    q.push('"');
    let mut k: usize = 0;
    proof {
        assert(q@ =~= seq!['"'] + f@.take(0));
    }
    while k < f.len()
        invariant
            k <= f@.len(),
            q@ == seq!['"'] + f@.take(k as int),
        decreases f@.len() - k,
    {
        q.push(f[k]);
        k = k + 1;
        proof {
            assert(q@ =~= seq!['"'] + f@.take(k as int));
        }
    }
    q.push('"');
    proof {
        assert(f@.take(f@.len() as int) =~= f@);
        assert(q@ =~= quote(f@));
    }
    Some(q)
}

/// All fragments contributed by a sequence of lines, in order.
pub open spec fn fragments_of_lines(lines: Seq<Seq<char>>) -> Seq<Seq<char>>
    decreases lines.len(),
{
    if lines.len() == 0 {
        Seq::empty()
    } else {
        line_fragments(lines[0]) + fragments_of_lines(lines.drop_first())
    }
}

/// The cleaned fragments of one raw annotation blob.
pub open spec fn normalize_spec(raw: Seq<char>) -> Seq<Seq<char>> {
    fragments_of_lines(split_lines(strip_markers(raw)))
}

/// Turns one raw annotation into its cleaned, quoted fragments, preserving
/// the order of the newline-delimited sub-highlights.
pub fn normalize(raw: &str) -> (frags: Vec<String>)
    ensures
        frags.deep_view() == normalize_spec(raw@),
{
    let cs = to_chars(raw);
    let stripped = strip_markers_exec(&cs);
    let lines = split_lines_exec(&stripped);
    let mut frags: Vec<String> = Vec::new();
    let mut i: usize = 0;
    proof {
        assert(lines.deep_view().skip(0) =~= lines.deep_view());
        assert(frags.deep_view() + fragments_of_lines(lines.deep_view()) =~~= fragments_of_lines(
            lines.deep_view(),
        ));
    }
    while i < lines.len()
        invariant
            i <= lines@.len(),
            lines.deep_view().len() == lines@.len(),
            fragments_of_lines(lines.deep_view()) == frags.deep_view() + fragments_of_lines(
                lines.deep_view().skip(i as int),
            ),
        decreases lines@.len() - i,
    {
        proof {
            let lv = lines.deep_view();
            assert(lv.skip(i as int).drop_first() =~= lv.skip(i + 1));
            assert(lv.skip(i as int)[0] == lv[i as int]);
            assert(fragments_of_lines(lv.skip(i as int)) == line_fragments(lv[i as int])
                + fragments_of_lines(lv.skip(i + 1)));
            assert(lines.deep_view()[i as int] =~= lines@[i as int]@);
        }
        match clean_line(&lines[i]) {
            Some(f) => {
                let s = chars_to_string(&f);
                proof {
                    let lv = lines.deep_view();
                    assert(frags.deep_view().push(f@) + fragments_of_lines(lv.skip(i + 1))
                        =~~= frags.deep_view() + (seq![f@] + fragments_of_lines(lv.skip(i + 1))));
                }
                let ghost pre = frags.deep_view();
                frags.push(s);
                proof {
                    assert(frags.deep_view() =~~= pre.push(s@));
                }
            },
            None => {
                proof {
                    let lv = lines.deep_view();
                    assert(frags.deep_view() + fragments_of_lines(lv.skip(i as int))
                        =~= frags.deep_view() + fragments_of_lines(lv.skip(i + 1)));
                }
            },
        }
        i = i + 1;
    }
    proof {
        let lv = lines.deep_view();
        assert(lv.skip(lv.len() as int) =~= Seq::<Seq<char>>::empty());
        assert(frags.deep_view() + Seq::<Seq<char>>::empty() =~~= frags.deep_view());
    }
    frags
}

} // verus!
