//! Properties of the normalization pipeline, stated and proved once for all
//! inputs: markers never survive cleaning, parenthesized-number lines vanish,
//! the fragment count is bounded by the line count, and cleaning is
//! idempotent on already-clean fragments.

use vstd::prelude::*;

use crate::chars::is_space_char;
use crate::text::fragments_of_lines;
use crate::text::has_marker;
use crate::text::is_paren_number;
use crate::text::line_fragments;
use crate::text::marker_at;
use crate::text::marker_len_at;
use crate::text::normalize_spec;
use crate::text::quote;
use crate::text::remove_tabs;
use crate::text::split_lines;
use crate::text::strip_leading_punct;
use crate::text::strip_markers;
use crate::text::trim;
use crate::text::trim_back;
use crate::text::trim_front;
use crate::text::lemma_split_lines_nonempty;
use crate::text::cons_head;
use crate::chars::is_strip_punct_char;

verus! {

// ---------------------------------------------------------------------------
// Brackets and markers
// ---------------------------------------------------------------------------
/// No opening bracket occurs in `s`.
pub open spec fn no_bracket(s: Seq<char>) -> bool {
    forall|k: int| 0 <= k < s.len() ==> s[k] != '['
}

/// Every opening bracket in `s` begins a single- or double-digit numeric
/// marker.
pub open spec fn brackets_only_markers(s: Seq<char>) -> bool {
    forall|j: int| 0 <= j < s.len() && s[j] == '[' ==> marker_at(s, j)
}

proof fn lemma_strip_markers_no_bracket(s: Seq<char>)
    requires
        brackets_only_markers(s),
    ensures
        no_bracket(strip_markers(s)),
    decreases s.len(),
{
    if s.len() == 0 {
    } else if marker_len_at(s) > 0 {
        let m = marker_len_at(s);
        assert forall|j: int|
            0 <= j < s.skip(m).len() && s.skip(m)[j] == '[' implies marker_at(s.skip(m), j) by {
            assert(s.skip(m)[j] == s[m + j]);
            assert(marker_at(s, m + j));
        };
        lemma_strip_markers_no_bracket(s.skip(m));
    } else {
        assert(s[0] != '[') by {
            if s[0] == '[' {
                assert(marker_at(s, 0));
            }
        };
        assert forall|j: int|
            0 <= j < s.skip(1).len() && s.skip(1)[j] == '[' implies marker_at(s.skip(1), j) by {
            assert(s.skip(1)[j] == s[1 + j]);
            assert(marker_at(s, 1 + j));
        };
        lemma_strip_markers_no_bracket(s.skip(1));
        assert forall|k: int|
            0 <= k < strip_markers(s).len() implies strip_markers(s)[k] != '[' by {
            assert(strip_markers(s) == seq![s[0]] + strip_markers(s.skip(1)));
            if k > 0 {
                assert(strip_markers(s)[k] == strip_markers(s.skip(1))[k - 1]);
            }
        };
    }
}

proof fn lemma_split_lines_no_bracket(s: Seq<char>, i: int)
    requires
        no_bracket(s),
        0 <= i < split_lines(s).len(),
    ensures
        no_bracket(split_lines(s)[i]),
    decreases s.len(),
{
    if s.len() == 0 {
    } else {
        assert forall|k: int|
            0 <= k < s.skip(1).len() implies s.skip(1)[k] != '[' by {
            assert(s.skip(1)[k] == s[1 + k]);
        };
        if s[0] == '\n' {
            if i > 0 {
                lemma_split_lines_no_bracket(s.skip(1), i - 1);
            }
        } else {
            let rest = split_lines(s.skip(1));
            lemma_split_lines_nonempty(s.skip(1));
            if i == 0 {
                lemma_split_lines_no_bracket(s.skip(1), 0);
                assert(split_lines(s)[0] == seq![s[0]] + rest[0]);
                assert forall|k: int|
                    0 <= k < split_lines(s)[0].len() implies split_lines(s)[0][k] != '[' by {
                    if k > 0 {
                        assert((seq![s[0]] + rest[0])[k] == rest[0][k - 1]);
                    }
                };
            } else {
                lemma_split_lines_no_bracket(s.skip(1), i);
                assert(split_lines(s)[i] == rest.drop_first()[i - 1]);
                assert(rest.drop_first()[i - 1] == rest[i]);
            }
        }
    }
}

proof fn lemma_trim_front_no_bracket(s: Seq<char>)
    requires
        no_bracket(s),
    ensures
        no_bracket(trim_front(s)),
    decreases s.len(),
{
    if s.len() > 0 && is_space_char(s[0]) {
        assert forall|k: int|
            0 <= k < s.skip(1).len() implies s.skip(1)[k] != '[' by {
            assert(s.skip(1)[k] == s[1 + k]);
        };
        lemma_trim_front_no_bracket(s.skip(1));
    }
}

proof fn lemma_trim_back_no_bracket(s: Seq<char>)
    requires
        no_bracket(s),
    ensures
        no_bracket(trim_back(s)),
    decreases s.len(),
{
    if s.len() > 0 && is_space_char(s[s.len() - 1]) {
        let t = s.take(s.len() - 1);
        assert forall|k: int| 0 <= k < t.len() implies t[k] != '[' by {
            assert(t[k] == s[k]);
        };
        lemma_trim_back_no_bracket(t);
    }
}

proof fn lemma_trim_no_bracket(s: Seq<char>)
    requires
        no_bracket(s),
    ensures
        no_bracket(trim(s)),
{
    lemma_trim_front_no_bracket(s);
    lemma_trim_back_no_bracket(trim_front(s));
}

proof fn lemma_strip_punct_no_bracket(s: Seq<char>)
    requires
        no_bracket(s),
    ensures
        no_bracket(strip_leading_punct(s)),
    decreases s.len(),
{
    if s.len() > 0 && is_strip_punct_char(s[0]) {
        assert forall|k: int|
            0 <= k < s.skip(1).len() implies s.skip(1)[k] != '[' by {
            assert(s.skip(1)[k] == s[1 + k]);
        };
        lemma_strip_punct_no_bracket(s.skip(1));
    }
}

proof fn lemma_remove_tabs_no_bracket(s: Seq<char>)
    requires
        no_bracket(s),
    ensures
        no_bracket(remove_tabs(s)),
    decreases s.len(),
{
    if s.len() == 0 {
    } else {
        assert forall|k: int|
            0 <= k < s.skip(1).len() implies s.skip(1)[k] != '[' by {
            assert(s.skip(1)[k] == s[1 + k]);
        };
        lemma_remove_tabs_no_bracket(s.skip(1));
        if s[0] != '\t' {
            assert forall|k: int|
                0 <= k < remove_tabs(s).len() implies remove_tabs(s)[k] != '[' by {
                assert(remove_tabs(s) == seq![s[0]] + remove_tabs(s.skip(1)));
                if k > 0 {
                    assert(remove_tabs(s)[k] == remove_tabs(s.skip(1))[k - 1]);
                }
            };
        }
    }
}

proof fn lemma_line_fragments_no_bracket(line: Seq<char>, i: int)
    requires
        no_bracket(line),
        0 <= i < line_fragments(line).len(),
    ensures
        no_bracket(line_fragments(line)[i]),
{
    let t = trim(line);
    lemma_trim_no_bracket(line);
    if t.len() > 0 && !is_paren_number(t) {
        lemma_strip_punct_no_bracket(t);
        lemma_remove_tabs_no_bracket(strip_leading_punct(t));
        lemma_trim_no_bracket(remove_tabs(strip_leading_punct(t)));
        let c = trim(remove_tabs(strip_leading_punct(t)));
        assert forall|k: int| 0 <= k < quote(c).len() implies quote(c)[k] != '[' by {
            if 1 <= k < quote(c).len() - 1 {
                assert(quote(c)[k] == c[k - 1]);
            } else {
                assert(quote(c)[k] == '"');
            }
        };
    }
}

proof fn lemma_fragments_no_bracket(lines: Seq<Seq<char>>, i: int)
    requires
        forall|l: int| 0 <= l < lines.len() ==> no_bracket(lines[l]),
        0 <= i < fragments_of_lines(lines).len(),
    ensures
        no_bracket(fragments_of_lines(lines)[i]),
    decreases lines.len(),
{
    let first = line_fragments(lines.first());
    if i < first.len() {
        lemma_line_fragments_no_bracket(lines.first(), i);
        assert(fragments_of_lines(lines)[i] == first[i]);
    } else {
        assert forall|l: int|
            0 <= l < lines.drop_first().len() implies no_bracket(lines.drop_first()[l]) by {
            assert(lines.drop_first()[l] == lines[l + 1]);
        };
        lemma_fragments_no_bracket(lines.drop_first(), i - first.len());
        assert(fragments_of_lines(lines)[i] == fragments_of_lines(lines.drop_first())[i
            - first.len()]);
    }
}

/// Bracketed numeric markers never survive normalization: when every opening
/// bracket in the raw text begins a single- or double-digit marker, no
/// emitted fragment contains any such marker.
pub proof fn lemma_markers_removed(raw: Seq<char>)
    requires
        brackets_only_markers(raw),
    ensures
        forall|i: int|
            0 <= i < normalize_spec(raw).len() ==> !has_marker(normalize_spec(raw)[i]),
{
    lemma_strip_markers_no_bracket(raw);
    let stripped = strip_markers(raw);
    assert forall|i: int|
        0 <= i < normalize_spec(raw).len() implies !has_marker(normalize_spec(raw)[i]) by {
        assert forall|l: int|
            0 <= l < split_lines(stripped).len() implies no_bracket(split_lines(stripped)[l]) by {
            lemma_split_lines_no_bracket(stripped, l);
        };
        lemma_fragments_no_bracket(split_lines(stripped), i);
        let f = normalize_spec(raw)[i];
        if has_marker(f) {
            let j = choose|j: int| marker_at(f, j);
            assert(f[j] == '[');
        }
    };
}

// ---------------------------------------------------------------------------
// Identity lemmas
// ---------------------------------------------------------------------------
/// When no marker occurs anywhere in `s`, stripping markers changes nothing.
proof fn lemma_no_marker_strip_identity(s: Seq<char>)
    requires
        forall|j: int| !marker_at(s, j),
    ensures
        strip_markers(s) == s,
    decreases s.len(),
{
    if s.len() == 0 {
        assert(strip_markers(s) =~= s);
    } else {
        assert(marker_len_at(s) == 0) by {
            if marker_len_at(s) > 0 {
                assert(marker_at(s, 0));
            }
        };
        assert forall|j: int| !marker_at(s.skip(1), j) by {
            if marker_at(s.skip(1), j) {
                assert(s.skip(1)[j] == s[1 + j]);
                assert(s.skip(1)[j + 1] == s[1 + j + 1]);
                assert(s.skip(1)[j + 2] == s[1 + j + 2]);
                if j + 3 < s.skip(1).len() {
                    assert(s.skip(1)[j + 3] == s[1 + j + 3]);
                }
                assert(marker_at(s, 1 + j));
            }
        };
        lemma_no_marker_strip_identity(s.skip(1));
        assert(seq![s[0]] + s.skip(1) =~= s);
    }
}

/// A text without newline characters is a single line.
proof fn lemma_single_line(s: Seq<char>)
    requires
        forall|j: int| 0 <= j < s.len() ==> s[j] != '\n',
    ensures
        split_lines(s) == seq![s],
    decreases s.len(),
{
    if s.len() == 0 {
        assert(split_lines(s) =~~= seq![s]);
    } else {
        assert forall|j: int|
            0 <= j < s.skip(1).len() implies s.skip(1)[j] != '\n' by {
            assert(s.skip(1)[j] == s[1 + j]);
        };
        lemma_single_line(s.skip(1));
        assert(seq![s[0]] + s.skip(1) =~= s);
        assert(split_lines(s) =~~= seq![s]);
    }
}

/// When no tab occurs in `s`, removing tabs changes nothing.
proof fn lemma_no_tabs_identity(s: Seq<char>)
    requires
        forall|j: int| 0 <= j < s.len() ==> s[j] != '\t',
    ensures
        remove_tabs(s) == s,
    decreases s.len(),
{
    if s.len() == 0 {
        assert(remove_tabs(s) =~= s);
    } else {
        assert forall|j: int|
            0 <= j < s.skip(1).len() implies s.skip(1)[j] != '\t' by {
            assert(s.skip(1)[j] == s[1 + j]);
        };
        lemma_no_tabs_identity(s.skip(1));
        assert(seq![s[0]] + s.skip(1) =~= s);
    }
}

// ---------------------------------------------------------------------------
// Parenthesized-number lines
// ---------------------------------------------------------------------------
/// A line that trims to a parenthesized number contributes no fragment.
pub proof fn lemma_paren_number_line(line: Seq<char>)
    requires
        is_paren_number(trim(line)),
    ensures
        line_fragments(line).len() == 0,
{
}

/// A raw annotation that is one parenthesized-number line (no newlines, no
/// markers) normalizes to nothing.
pub proof fn lemma_paren_number_raw(raw: Seq<char>)
    requires
        is_paren_number(trim(raw)),
        forall|j: int| !marker_at(raw, j),
        forall|j: int| 0 <= j < raw.len() ==> raw[j] != '\n',
    ensures
        normalize_spec(raw).len() == 0,
{
    lemma_no_marker_strip_identity(raw);
    lemma_single_line(raw);
    lemma_paren_number_line(raw);
    assert(seq![raw].drop_first() =~~= Seq::<Seq<char>>::empty());
    assert(fragments_of_lines(seq![raw]) == line_fragments(raw) + fragments_of_lines(
        Seq::<Seq<char>>::empty(),
    ));
    assert(normalize_spec(raw) =~~= Seq::<Seq<char>>::empty());
}

// ---------------------------------------------------------------------------
// Idempotence
// ---------------------------------------------------------------------------
/// Re-normalizing an already-normalized fragment (without its surrounding
/// quotes) yields the same fragment again: a non-empty, trimmed single line
/// without tabs or markers, which is not a parenthesized number and does not
/// begin with strip-punctuation, comes back unchanged inside its quotes.
pub proof fn lemma_normalize_idempotent(f: Seq<char>)
    requires
        f.len() > 0,
        trim(f) == f,
        forall|j: int| 0 <= j < f.len() ==> f[j] != '\n',
        forall|j: int| 0 <= j < f.len() ==> f[j] != '\t',
        forall|j: int| !marker_at(f, j),
        !is_paren_number(f),
        !is_strip_punct_char(f[0]),
    ensures
        normalize_spec(f) == seq![quote(f)],
{
    lemma_no_marker_strip_identity(f);
    lemma_single_line(f);
    assert(strip_leading_punct(f) == f);
    lemma_no_tabs_identity(f);
    assert(line_fragments(f) == seq![quote(f)]);
    assert(seq![f].drop_first() =~~= Seq::<Seq<char>>::empty());
    assert(fragments_of_lines(seq![f]) == line_fragments(f) + fragments_of_lines(
        Seq::<Seq<char>>::empty(),
    ));
    assert(normalize_spec(f) =~~= seq![quote(f)]);
}

// ---------------------------------------------------------------------------
// Fragment count
// ---------------------------------------------------------------------------
/// Marker stripping applied to each line.
pub open spec fn strip_each(lines: Seq<Seq<char>>) -> Seq<Seq<char>> {
    lines.map_values(|l: Seq<char>| strip_markers(l))
}

/// How many of the lines are non-empty after trimming.
pub open spec fn count_nonempty_lines(lines: Seq<Seq<char>>) -> nat
    decreases lines.len(),
{
    if lines.len() == 0 {
        0
    } else {
        (if trim(lines.first()).len() > 0 {
            1nat
        } else {
            0nat
        }) + count_nonempty_lines(lines.drop_first())
    }
}

/// Every character of `s` is whitespace.
pub open spec fn all_space(s: Seq<char>) -> bool {
    forall|i: int| 0 <= i < s.len() ==> is_space_char(s[i])
}

proof fn lemma_trim_front_nonspace(s: Seq<char>)
    requires
        !all_space(s),
    ensures
        trim_front(s).len() > 0,
        !is_space_char(trim_front(s)[0]),
    decreases s.len(),
{
    if s.len() > 0 && is_space_char(s[0]) {
        let w = choose|i: int| 0 <= i < s.len() && !is_space_char(s[i]);
        assert(s.skip(1)[w - 1] == s[w]);
        assert(!all_space(s.skip(1)));
        lemma_trim_front_nonspace(s.skip(1));
    } else {
        if s.len() == 0 {
            assert(all_space(s));
        }
    }
}

proof fn lemma_trim_back_keeps_head(u: Seq<char>)
    requires
        u.len() > 0,
        !is_space_char(u[0]),
    ensures
        trim_back(u).len() > 0,
    decreases u.len(),
{
    if is_space_char(u[u.len() - 1]) {
        let t = u.take(u.len() - 1);
        assert(t[0] == u[0]);
        lemma_trim_back_keeps_head(t);
    }
}

proof fn lemma_trim_empty_all_space(l: Seq<char>)
    requires
        trim(l).len() == 0,
    ensures
        all_space(l),
{
    if !all_space(l) {
        lemma_trim_front_nonspace(l);
        lemma_trim_back_keeps_head(trim_front(l));
    }
}

proof fn lemma_split_prepend(p: Seq<char>, t: Seq<char>)
    requires
        forall|i: int| 0 <= i < p.len() ==> p[i] != '\n',
    ensures
        split_lines(p + t) == cons_head(p, split_lines(t)),
    decreases p.len(),
{
    lemma_split_lines_nonempty(t);
    if p.len() == 0 {
        assert(p + t =~= t);
        assert(p + split_lines(t)[0] =~= split_lines(t)[0]);
        assert(cons_head(p, split_lines(t)) =~~= split_lines(t));
    } else {
        let s = p + t;
        assert(s[0] == p[0]);
        assert(s.skip(1) =~= p.skip(1) + t);
        assert forall|i: int| 0 <= i < p.skip(1).len() implies p.skip(1)[i] != '\n' by {
            assert(p.skip(1)[i] == p[1 + i]);
        };
        lemma_split_prepend(p.skip(1), t);
        let rest = split_lines(s.skip(1));
        assert(rest == cons_head(p.skip(1), split_lines(t)));
        assert(split_lines(s) == seq![seq![s[0]] + rest[0]] + rest.drop_first());
        assert(seq![s[0]] + (p.skip(1) + split_lines(t)[0]) =~= p + split_lines(t)[0]);
        assert(rest.drop_first() =~~= split_lines(t).drop_first());
        assert(split_lines(s) =~~= cons_head(p, split_lines(t)));
    }
}

proof fn lemma_first_line_prefix(u: Seq<char>)
    ensures
        split_lines(u)[0].len() <= u.len(),
        forall|i: int| 0 <= i < split_lines(u)[0].len() ==> split_lines(u)[0][i] == u[i],
    decreases u.len(),
{
    if u.len() == 0 {
    } else if u[0] == '\n' {
    } else {
        lemma_first_line_prefix(u.skip(1));
        lemma_split_lines_nonempty(u.skip(1));
        let rest = split_lines(u.skip(1));
        assert(split_lines(u)[0] == seq![u[0]] + rest[0]);
        assert forall|i: int|
            0 <= i < split_lines(u)[0].len() implies split_lines(u)[0][i] == u[i] by {
            if i > 0 {
                assert((seq![u[0]] + rest[0])[i] == rest[0][i - 1]);
                assert(rest[0][i - 1] == u.skip(1)[i - 1]);
                assert(u.skip(1)[i - 1] == u[i]);
            }
        };
    }
}

proof fn lemma_strip_marker_prefix(s: Seq<char>, y: Seq<char>)
    requires
        marker_len_at(s) > 0,
    ensures
        strip_markers(s.take(marker_len_at(s)) + y) == strip_markers(y),
{
    let m = marker_len_at(s);
    let p = s.take(m);
    let x = p + y;
    assert(x[0] == s[0]);
    assert(x[1] == s[1]);
    assert(x[2] == s[2]);
    if m == 4 {
        assert(x[3] == s[3]);
    }
    assert(marker_len_at(x) == m);
    assert(x.skip(m) =~= y);
    assert(strip_markers(x) == strip_markers(x.skip(m)));
}

proof fn lemma_strip_linewise(s: Seq<char>)
    ensures
        split_lines(strip_markers(s)) == strip_each(split_lines(s)),
    decreases s.len(),
{
    if s.len() == 0 {
        assert(strip_markers(s).len() == 0);
        assert(strip_markers(Seq::<char>::empty()) == Seq::<char>::empty());
        assert(split_lines(strip_markers(s)) =~~= strip_each(split_lines(s)));
    } else if marker_len_at(s) > 0 {
        let m = marker_len_at(s);
        let p = s.take(m);
        assert forall|i: int| 0 <= i < p.len() implies p[i] != '\n' by {
            assert(p[i] == s[i]);
        };
        assert(p + s.skip(m) =~= s);
        lemma_split_prepend(p, s.skip(m));
        assert(split_lines(s) == cons_head(p, split_lines(s.skip(m))));
        lemma_strip_linewise(s.skip(m));
        lemma_split_lines_nonempty(s.skip(m));
        let r = split_lines(s.skip(m));
        lemma_strip_marker_prefix(s, r[0]);
        assert(strip_markers(s) == strip_markers(s.skip(m)));
        assert forall|i: int|
            0 <= i < strip_each(split_lines(s)).len() implies strip_each(split_lines(s))[i]
            == strip_each(r)[i] by {
            if i == 0 {
                assert(split_lines(s)[0] == p + r[0]);
                assert(strip_each(split_lines(s))[0] == strip_markers(p + r[0]));
            } else {
                assert(split_lines(s)[i] == r.drop_first()[i - 1]);
                assert(r.drop_first()[i - 1] == r[i]);
            }
        };
        assert(strip_each(split_lines(s)) =~= strip_each(r));
    } else if s[0] == '\n' {
        assert(s.skip(1) =~= s.skip(1));
        lemma_strip_linewise(s.skip(1));
        let w = strip_markers(s);
        assert(w == seq![s[0]] + strip_markers(s.skip(1)));
        assert(w[0] == '\n');
        assert(w.skip(1) =~= strip_markers(s.skip(1)));
        assert(split_lines(w) == seq![Seq::<char>::empty()] + split_lines(w.skip(1)));
        assert(split_lines(s) == seq![Seq::<char>::empty()] + split_lines(s.skip(1)));
        assert forall|i: int|
            0 <= i < split_lines(w).len() implies split_lines(w)[i] == strip_each(
            split_lines(s),
        )[i] by {
            if i == 0 {
                assert(strip_markers(Seq::<char>::empty()) == Seq::<char>::empty());
            } else {
                assert(split_lines(w)[i] == split_lines(w.skip(1))[i - 1]);
                assert(split_lines(s)[i] == split_lines(s.skip(1))[i - 1]);
                assert(strip_each(split_lines(s))[i] == strip_markers(split_lines(s.skip(1))[i
                    - 1]));
                assert(strip_each(split_lines(s.skip(1)))[i - 1] == strip_markers(split_lines(
                    s.skip(1),
                )[i - 1]));
            }
        };
        assert(split_lines(w) =~= strip_each(split_lines(s)));
    } else {
        lemma_strip_linewise(s.skip(1));
        lemma_split_lines_nonempty(s.skip(1));
        lemma_first_line_prefix(s.skip(1));
        let r = split_lines(s.skip(1));
        let r0 = r[0];
        let x = seq![s[0]] + r0;
        assert forall|i: int| 0 <= i < r0.len() implies r0[i] == s[1 + i] by {
            assert(r0[i] == s.skip(1)[i]);
        };
        assert(marker_len_at(x) == 0) by {
            if marker_len_at(x) > 0 {
                assert(x[0] == s[0]);
                assert(x[1] == r0[0]);
                assert(x[2] == r0[1]);
                assert(x[1] == s[1]);
                assert(x[2] == s[2]);
                if marker_len_at(x) == 4 {
                    assert(x[3] == r0[2]);
                    assert(x[3] == s[3]);
                }
                assert(marker_len_at(s) > 0);
            }
        };
        assert(x.skip(1) =~= r0);
        assert(strip_markers(x) == seq![s[0]] + strip_markers(r0));
        let w = strip_markers(s);
        assert(w == seq![s[0]] + strip_markers(s.skip(1)));
        assert(w[0] == s[0]);
        assert(w.skip(1) =~= strip_markers(s.skip(1)));
        lemma_split_lines_nonempty(strip_markers(s.skip(1)));
        assert(split_lines(w) == seq![seq![w[0]] + split_lines(w.skip(1))[0]] + split_lines(
            w.skip(1),
        ).drop_first());
        assert(split_lines(w.skip(1)) == strip_each(r));
        assert(split_lines(s) == seq![x] + r.drop_first());
        assert forall|i: int|
            0 <= i < split_lines(w).len() implies split_lines(w)[i] == strip_each(
            split_lines(s),
        )[i] by {
            if i == 0 {
                assert(split_lines(w)[0] == seq![w[0]] + split_lines(w.skip(1))[0]);
                assert(strip_each(r)[0] == strip_markers(r0));
                assert(strip_each(split_lines(s))[0] == strip_markers(x));
            } else {
                assert(split_lines(w)[i] == split_lines(w.skip(1)).drop_first()[i - 1]);
                assert(split_lines(w.skip(1)).drop_first()[i - 1] == split_lines(w.skip(1))[i]);
                assert(split_lines(s)[i] == r.drop_first()[i - 1]);
                assert(r.drop_first()[i - 1] == r[i]);
                assert(strip_each(split_lines(s))[i] == strip_markers(r[i]));
                assert(strip_each(r)[i] == strip_markers(r[i]));
            }
        };
        assert(split_lines(w) =~= strip_each(split_lines(s)));
    }
}

proof fn lemma_count_strip_le(lines: Seq<Seq<char>>)
    ensures
        count_nonempty_lines(strip_each(lines)) <= count_nonempty_lines(lines),
    decreases lines.len(),
{
    if lines.len() == 0 {
    } else {
        let l = lines.first();
        assert(strip_each(lines).first() == strip_markers(l));
        assert(strip_each(lines).drop_first() =~= strip_each(lines.drop_first())) by {
            assert forall|i: int|
                0 <= i < strip_each(lines).drop_first().len() implies strip_each(
                lines,
            ).drop_first()[i] == strip_each(lines.drop_first())[i] by {
                assert(strip_each(lines).drop_first()[i] == strip_each(lines)[i + 1]);
                assert(strip_each(lines)[i + 1] == strip_markers(lines[i + 1]));
                assert(lines.drop_first()[i] == lines[i + 1]);
            };
        };
        lemma_count_strip_le(lines.drop_first());
        if trim(l).len() == 0 {
            lemma_trim_empty_all_space(l);
            assert forall|j: int| !marker_at(l, j) by {
                if marker_at(l, j) {
                    assert(l[j] == '[');
                    assert(is_space_char(l[j]));
                }
            };
            lemma_no_marker_strip_identity(l);
        }
    }
}

proof fn lemma_fragments_le(lines: Seq<Seq<char>>)
    ensures
        fragments_of_lines(lines).len() <= count_nonempty_lines(lines),
    decreases lines.len(),
{
    if lines.len() == 0 {
    } else {
        lemma_fragments_le(lines.drop_first());
    }
}

/// A raw annotation never yields more fragments than it has newline-delimited
/// lines that are non-empty after trimming.
pub proof fn lemma_fragment_count(raw: Seq<char>)
    ensures
        normalize_spec(raw).len() <= count_nonempty_lines(split_lines(raw)),
{
    lemma_strip_linewise(raw);
    lemma_fragments_le(split_lines(strip_markers(raw)));
    lemma_count_strip_le(split_lines(raw));
}

} // verus!
