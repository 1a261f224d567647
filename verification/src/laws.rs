//! Laws the library guarantees across its functions: single-template output
//! shape, cross-template dedup of the merged document, blank-run collapsing,
//! and the involution of selection toggling.

use vstd::prelude::*;
use crate::strutil::{chop_cr, collapse_lines, collapse_spec, dedup_bodies, dedup_filter,
    find_char_at, is_blank, is_space_char, join_with, lemma_find_char_at, split_lines_spec,
    trim_duplicate_lines_spec, trim_end_spec, trim_start_spec, trim_spec};
use crate::template::{content_spec, content_title_spec, ProviderKind};
use crate::list::merged_content_spec;
use crate::ui::{find_sel, toggle_spec};
use crate::collection::TemplateCollectionKind;

verus! {

// ---------------------------------------------------------------------------
// Selection toggling is its own inverse
// ---------------------------------------------------------------------------

/// Characterizes [`find_sel`]: it returns the first matching index, or `-1`
/// exactly when nothing matches.
proof fn lemma_find_sel_props(
    s: Seq<(TemplateCollectionKind, (Seq<char>, (ProviderKind, Seq<char>)))>,
    x: (TemplateCollectionKind, (Seq<char>, (ProviderKind, Seq<char>))),
)
    ensures
        -1 <= find_sel(s, x) < s.len(),
        find_sel(s, x) >= 0 ==> s[find_sel(s, x)] == x,
        find_sel(s, x) >= 0 ==> forall|m: int| 0 <= m < find_sel(s, x) ==> s[m] != x,
        find_sel(s, x) < 0 ==> forall|m: int| 0 <= m < s.len() ==> s[m] != x,
    decreases s.len(),
{
    if s.len() > 0 && s[0] != x {
        let t = s.drop_first();
        lemma_find_sel_props(t, x);
        assert(forall|m: int| 0 <= m < t.len() ==> t[m] == s[m + 1]);
        let r = find_sel(t, x);
        if r >= 0 {
            assert(find_sel(s, x) == r + 1);
            assert(s[r + 1] == t[r]);
            assert forall|m: int| 0 <= m < r + 1 implies s[m] != x by {
                if m > 0 {
                    assert(t[m - 1] != x);
                }
            }
        } else {
            assert(find_sel(s, x) == -1);
            assert forall|m: int| 0 <= m < s.len() implies s[m] != x by {
                if m > 0 {
                    assert(t[m - 1] != x);
                }
            }
        }
    }
}

/// Toggling the same pair twice restores the selection sequence exactly when
/// the pair was absent, and restores it as a multiset in every case where
/// the pair occurs at most once (as toggle-built selections guarantee).
pub proof fn lemma_toggle_twice(
    s: Seq<(TemplateCollectionKind, (Seq<char>, (ProviderKind, Seq<char>)))>,
    x: (TemplateCollectionKind, (Seq<char>, (ProviderKind, Seq<char>))),
)
    requires
        forall|i: int, j: int| 0 <= i < j < s.len() && s[i] == x ==> s[j] != x,
    ensures
        !s.contains(x) ==> toggle_spec(toggle_spec(s, x), x) == s,
        toggle_spec(toggle_spec(s, x), x).to_multiset() == s.to_multiset(),
{
    broadcast use vstd::seq_lib::group_to_multiset_ensures;

    lemma_find_sel_props(s, x);
    let i = find_sel(s, x);
    if i < 0 {
        // absent: push then remove the pushed element
        assert(!s.contains(x));
        let t1 = s.push(x);
        assert(t1[s.len() as int] == x);
        assert(forall|m: int| 0 <= m < s.len() ==> t1[m] == s[m]);
        crate::ui::lemma_find_sel_at(t1, x, s.len() as int);
        assert(toggle_spec(t1, x) =~= t1.remove(s.len() as int));
        assert(t1.remove(s.len() as int) =~= s);
        assert(toggle_spec(toggle_spec(s, x), x) == s);
    } else {
        // present exactly once: remove it, then re-append it
        let t1 = s.remove(i);
        assert(forall|m: int|
            0 <= m < t1.len() ==> t1[m] == (if m < i {
                s[m]
            } else {
                s[m + 1]
            }));
        assert(forall|m: int| 0 <= m < t1.len() ==> t1[m] != x);
        lemma_find_sel_props(t1, x);
        assert(find_sel(t1, x) < 0);
        assert(toggle_spec(t1, x) == t1.push(x));
        // multisets: removing s[i] == x then inserting x is the identity
        assert(t1.to_multiset() =~= s.to_multiset().remove(x));
        assert(t1.push(x).to_multiset() =~= s.to_multiset().remove(x).insert(x));
        assert(s.contains(x));
        assert(s.to_multiset().count(x) > 0);
        assert(s.to_multiset().remove(x).insert(x) =~= s.to_multiset());
    }
}

// ---------------------------------------------------------------------------
// Single-template output is banner plus raw body
// ---------------------------------------------------------------------------

/// Trimming the front never lengthens a sequence.
proof fn lemma_trim_start_len(s: Seq<char>)
    ensures
        trim_start_spec(s).len() <= s.len(),
    decreases s.len(),
{
    if s.len() > 0 && is_space_char(s[0]) {
        lemma_trim_start_len(s.drop_first());
    }
}

/// Trimming the back never lengthens a sequence.
proof fn lemma_trim_end_len(s: Seq<char>)
    ensures
        trim_end_spec(s).len() <= s.len(),
    decreases s.len(),
{
    if s.len() > 0 && is_space_char(s.last()) {
        lemma_trim_end_len(s.drop_last());
    }
}

/// A non-empty sequence equal to its own trim neither starts nor ends in
/// whitespace.
proof fn lemma_trimmed_ends(s: Seq<char>)
    requires
        trim_spec(s) == s,
        s.len() > 0,
    ensures
        !is_space_char(s[0]),
        !is_space_char(s.last()),
{
    if is_space_char(s[0]) {
        lemma_trim_start_len(s.drop_first());
        lemma_trim_end_len(trim_start_spec(s.drop_first()));
        assert(trim_spec(s).len() < s.len());
    }
    assert(trim_start_spec(s) == s);
    if is_space_char(s.last()) {
        lemma_trim_end_len(s.drop_last());
        assert(trim_spec(s).len() < s.len());
    }
}

/// For a single-template list over an already-trimmed, non-empty body, the
/// merged output is exactly the title banner followed by a blank line and
/// the body, with no dedup applied whatever the body holds.
pub proof fn lemma_single_template_content(
    tv: (Seq<char>, (ProviderKind, Seq<char>)),
    body: Seq<char>,
)
    requires
        trim_spec(body) == body,
        body.len() > 0,
    ensures
        merged_content_spec(seq![tv], seq![body]) == content_title_spec(tv.1) + "\n"@ + body,
{
    reveal_strlit("\n");
    reveal_strlit("###");
    let t = content_title_spec(tv.1);
    let nl = "\n"@;
    assert(nl.len() == 1 && nl[0] == '\n');
    let x = t + nl + body + nl;
    assert(merged_content_spec(seq![tv], seq![body]) == content_spec(tv.1, body));
    // the banner starts with '#', so nothing is trimmed at the front
    assert(x[0] == '#') by {
        assert(("###"@ + Seq::new(crate::template::title_spec(tv.1).len() + 6, |i: int| '-')
            + "###"@)[0] == '#');
        assert(t[0] == '#');
    }
    assert(trim_start_spec(x) == x);
    // one trailing newline goes; the trimmed body's last character stays
    assert(x.last() == '\n');
    let y = x.drop_last();
    assert(trim_end_spec(x) == trim_end_spec(y));
    assert(y =~= t + nl + body);
    lemma_trimmed_ends(body);
    assert(y.last() == body.last());
    assert(trim_end_spec(y) == y);
    assert(content_spec(tv.1, body) == y);
}

// ---------------------------------------------------------------------------
// Shared line vocabulary
// ---------------------------------------------------------------------------

/// `s` holds no carriage return.
pub open spec fn no_cr(s: Seq<char>) -> bool {
    forall|j: int| 0 <= j < s.len() ==> s[j] != '\r'
}

/// A line as produced by line splitting: no newline and no carriage return.
pub open spec fn line_clean(l: Seq<char>) -> bool {
    forall|j: int| 0 <= j < l.len() ==> l[j] != '\n' && l[j] != '\r'
}

/// Every listed line is clean.
pub open spec fn lines_clean(ls: Seq<Seq<char>>) -> bool {
    forall|i: int| 0 <= i < ls.len() ==> line_clean(#[trigger] ls[i])
}

/// Occurrences of the line `l` in a line list.
pub open spec fn line_count(ls: Seq<Seq<char>>, l: Seq<char>) -> nat
    decreases ls.len(),
{
    if ls.len() == 0 {
        0
    } else {
        (if ls[0] == l {
            1nat
        } else {
            0nat
        }) + line_count(ls.drop_first(), l)
    }
}

/// All lines of a list of documents, in order.
pub open spec fn doc_lines(texts: Seq<Seq<char>>) -> Seq<Seq<char>>
    decreases texts.len(),
{
    if texts.len() == 0 {
        Seq::empty()
    } else {
        split_lines_spec(texts[0]) + doc_lines(texts.drop_first())
    }
}

/// Some body's line decomposition holds the line `l`.
pub open spec fn bodies_have(bodies: Seq<Seq<char>>, l: Seq<char>) -> bool {
    exists|i: int|
        0 <= i < bodies.len() && line_count(#[trigger] split_lines_spec(bodies[i]), l) > 0
}

/// Counting distributes over concatenation.
proof fn lemma_line_count_concat(a: Seq<Seq<char>>, b: Seq<Seq<char>>, l: Seq<char>)
    ensures
        line_count(a + b, l) == line_count(a, l) + line_count(b, l),
    decreases a.len(),
{
    if a.len() == 0 {
        assert(a + b =~= b);
    } else {
        assert((a + b).drop_first() =~= a.drop_first() + b);
        assert((a + b)[0] == a[0]);
        lemma_line_count_concat(a.drop_first(), b, l);
    }
}

/// A positive count is the same as membership at some index.
proof fn lemma_line_count_pos(ls: Seq<Seq<char>>, l: Seq<char>)
    ensures
        line_count(ls, l) > 0 <==> exists|i: int| 0 <= i < ls.len() && ls[i] == l,
    decreases ls.len(),
{
    if ls.len() > 0 {
        lemma_line_count_pos(ls.drop_first(), l);
        if ls[0] == l {
            assert(ls[0] == l);
        } else {
            assert forall|i: int| 0 <= i < ls.len() && ls[i] == l implies line_count(ls, l)
                > 0 by {
                assert(ls.drop_first()[i - 1] == l);
            }
            if line_count(ls, l) > 0 {
                let i = choose|i: int|
                    0 <= i < ls.drop_first().len() && ls.drop_first()[i] == l;
                assert(ls[i + 1] == l);
            }
        }
    }
}

/// [`find_char_at`] from the start returns exactly the first index holding
/// `c`, or the length when there is none.
proof fn lemma_find_char_exact(s: Seq<char>, c: char, i: int)
    requires
        0 <= i <= s.len(),
        forall|j: int| 0 <= j < i ==> s[j] != c,
        i < s.len() ==> s[i] == c,
    ensures
        find_char_at(s, c, 0) == i,
{
    lemma_find_char_at(s, c, 0);
    let f = find_char_at(s, c, 0);
    if f < i {
        assert(s[f] == c);
    }
    if f > i && i < s.len() {
        assert(s[i] != c);
    }
}

/// Splitting the lines of a carriage-return-free text yields clean lines.
proof fn lemma_split_lines_clean(s: Seq<char>)
    requires
        no_cr(s),
    ensures
        lines_clean(split_lines_spec(s)),
    decreases s.len(),
{
    if s.len() > 0 {
        lemma_find_char_at(s, '\n', 0);
        let i = find_char_at(s, '\n', 0);
        if 0 <= i < s.len() {
            let first = chop_cr(s.subrange(0, i));
            assert(line_clean(first)) by {
                assert(forall|j: int| 0 <= j < i ==> s.subrange(0, i)[j] == s[j]);
            }
            let rest = s.subrange(i + 1, s.len() as int);
            assert(no_cr(rest)) by {
                assert(forall|j: int| 0 <= j < rest.len() ==> rest[j] == s[i + 1 + j]);
            }
            lemma_split_lines_clean(rest);
            assert forall|k: int| 0 <= k < split_lines_spec(s).len() implies line_clean(
                #[trigger] split_lines_spec(s)[k],
            ) by {
                if k == 0 {
                    assert(split_lines_spec(s)[0] == first);
                } else {
                    assert(split_lines_spec(s)[k] == split_lines_spec(rest)[k - 1]);
                }
            }
        } else {
            assert(forall|j: int| 0 <= j < s.len() ==> s[j] != '\n');
            assert(line_clean(s));
        }
    }
}

/// Splitting a clean line, a newline, and a remainder peels off that line.
proof fn lemma_split_prepend(l: Seq<char>, rest: Seq<char>)
    requires
        line_clean(l),
    ensures
        split_lines_spec(l + seq!['\n'] + rest) == seq![l] + split_lines_spec(rest),
{
    let x = l + seq!['\n'] + rest;
    assert(x.len() > 0);
    assert(forall|j: int| 0 <= j < l.len() ==> x[j] == l[j]);
    assert(x[l.len() as int] == '\n');
    lemma_find_char_exact(x, '\n', l.len() as int);
    let i = l.len() as int;
    assert(x.subrange(0, i) =~= l);
    assert(chop_cr(l) == l);
    assert(x.subrange(i + 1, x.len() as int) =~= rest);
    assert(split_lines_spec(x) =~= seq![l] + split_lines_spec(rest));
}

// ---------------------------------------------------------------------------
// Blank runs collapse to exactly one blank line
// ---------------------------------------------------------------------------

/// The line-level picture of the collapse pass: non-blank lines stay, each
/// maximal blank run becomes one empty line; `prev_blank` marks an open run.
pub open spec fn squeeze(ls: Seq<Seq<char>>, prev_blank: bool) -> Seq<Seq<char>>
    decreases ls.len(),
{
    if ls.len() == 0 {
        Seq::empty()
    } else if is_blank(ls[0]) {
        if prev_blank {
            squeeze(ls.drop_first(), true)
        } else {
            seq![Seq::<char>::empty()] + squeeze(ls.drop_first(), true)
        }
    } else {
        seq![ls[0]] + squeeze(ls.drop_first(), false)
    }
}

/// Splitting a collapsed line list gives exactly the squeezed lines.
proof fn lemma_collapse_split(ls: Seq<Seq<char>>, pb: bool)
    requires
        lines_clean(ls),
    ensures
        split_lines_spec(collapse_lines(ls, pb)) == squeeze(ls, pb),
    decreases ls.len(),
{
    if ls.len() > 0 {
        let rest = ls.drop_first();
        assert(lines_clean(rest)) by {
            assert(forall|i: int| 0 <= i < rest.len() ==> rest[i] == ls[i + 1]);
        }
        if is_blank(ls[0]) {
            lemma_collapse_split(rest, true);
            if !pb {
                assert(line_clean(Seq::<char>::empty()));
                lemma_split_prepend(Seq::<char>::empty(), collapse_lines(rest, true));
                assert(Seq::<char>::empty() + seq!['\n'] + collapse_lines(rest, true)
                    =~= seq!['\n'] + collapse_lines(rest, true));
            }
        } else {
            lemma_collapse_split(rest, false);
            lemma_split_prepend(ls[0], collapse_lines(rest, false));
        }
    }
}

/// An open blank run swallows leading blanks: whatever squeeze emits first
/// is non-blank.
proof fn lemma_squeeze_head_nonblank(ls: Seq<Seq<char>>)
    ensures
        squeeze(ls, true).len() > 0 ==> !is_blank(squeeze(ls, true)[0]),
    decreases ls.len(),
{
    if ls.len() > 0 {
        lemma_squeeze_head_nonblank(ls.drop_first());
    }
}

/// No two neighbouring lines of a squeezed list are both blank.
#[verifier::rlimit(30)]
proof fn lemma_squeeze_no_consec(ls: Seq<Seq<char>>, pb: bool)
    ensures
        forall|i: int|
            0 <= i && i + 1 < squeeze(ls, pb).len() ==> !(is_blank(
                #[trigger] squeeze(ls, pb)[i],
            ) && is_blank(squeeze(ls, pb)[i + 1])),
    decreases ls.len(),
{
    let out = squeeze(ls, pb);
    if ls.len() == 0 {
        assert(out.len() == 0);
    } else {
        let rest = ls.drop_first();
        if is_blank(ls[0]) {
            lemma_squeeze_no_consec(rest, true);
            if pb {
                assert(out == squeeze(rest, true));
                assert forall|i: int|
                    0 <= i && i + 1 < out.len() implies !(is_blank(#[trigger] out[i]) && is_blank(
                    out[i + 1],
                )) by {
                    assert(out[i] == squeeze(rest, true)[i]);
                    assert(out[i + 1] == squeeze(rest, true)[i + 1]);
                }
            } else {
                lemma_squeeze_head_nonblank(rest);
                assert(out == seq![Seq::<char>::empty()] + squeeze(rest, true));
                assert forall|i: int|
                    0 <= i && i + 1 < out.len() implies !(is_blank(#[trigger] out[i]) && is_blank(
                    out[i + 1],
                )) by {
                    if i == 0 {
                        assert(out[1] == squeeze(rest, true)[0]);
                        assert(!is_blank(out[1]));
                    } else {
                        assert(out[i] == squeeze(rest, true)[i - 1]);
                        assert(out[i + 1] == squeeze(rest, true)[i]);
                    }
                }
            }
        } else {
            lemma_squeeze_no_consec(rest, false);
            assert(out == seq![ls[0]] + squeeze(rest, false));
            assert forall|i: int|
                0 <= i && i + 1 < out.len() implies !(is_blank(#[trigger] out[i]) && is_blank(
                out[i + 1],
            )) by {
                if i == 0 {
                    assert(out[0] == ls[0]);
                    assert(!is_blank(out[0]));
                } else {
                    assert(out[i] == squeeze(rest, false)[i - 1]);
                    assert(out[i + 1] == squeeze(rest, false)[i]);
                }
            }
        }
    }
}

/// Collapsing replaces every run of blank lines with exactly one empty line
/// and keeps the non-blank lines: line by line, the collapsed text reads as
/// the squeeze of the input's lines, and no two neighbouring output lines
/// are blank.
pub proof fn lemma_blank_runs_collapse(s: Seq<char>)
    requires
        no_cr(s),
    ensures
        split_lines_spec(collapse_spec(s)) == squeeze(split_lines_spec(s), false),
        forall|i: int|
            0 <= i && i + 1 < split_lines_spec(collapse_spec(s)).len() ==> !(is_blank(
                #[trigger] split_lines_spec(collapse_spec(s))[i],
            ) && is_blank(split_lines_spec(collapse_spec(s))[i + 1])),
{
    lemma_split_lines_clean(s);
    lemma_collapse_split(split_lines_spec(s), false);
    lemma_squeeze_no_consec(split_lines_spec(s), false);
}

// ---------------------------------------------------------------------------
// Cross-template dedup of the merged document
// ---------------------------------------------------------------------------

/// Squeezing keeps the count of every non-blank line.
proof fn lemma_squeeze_count(ls: Seq<Seq<char>>, pb: bool, l: Seq<char>)
    requires
        !is_blank(l),
    ensures
        line_count(squeeze(ls, pb), l) == line_count(ls, l),
    decreases ls.len(),
{
    if ls.len() > 0 {
        let rest = ls.drop_first();
        if is_blank(ls[0]) {
            lemma_squeeze_count(rest, true, l);
            assert(ls[0] != l);
            if !pb {
                assert(is_blank(Seq::<char>::empty()));
                assert((seq![Seq::<char>::empty()] + squeeze(rest, true)).drop_first()
                    =~= squeeze(rest, true));
            }
        } else {
            lemma_squeeze_count(rest, false, l);
            assert((seq![ls[0]] + squeeze(rest, false)).drop_first() =~= squeeze(rest, false));
        }
    }
}

/// Splitting the newline-join of clean lines keeps the count of every
/// non-blank line.
proof fn lemma_join_split_count(kept: Seq<Seq<char>>, l: Seq<char>)
    requires
        lines_clean(kept),
        !is_blank(l),
    ensures
        line_count(split_lines_spec(join_with(kept, seq!['\n'])), l) == line_count(kept, l),
    decreases kept.len(),
{
    let nl = seq!['\n'];
    if kept.len() == 0 {
        assert(join_with(kept, nl).len() == 0);
    } else if kept.len() == 1 {
        let k0 = kept[0];
        assert(join_with(kept, nl) == k0);
        if k0.len() == 0 {
            assert(split_lines_spec(k0).len() == 0);
            assert(is_blank(k0));
            assert(line_count(kept, l) == line_count(kept.drop_first(), l));
        } else {
            lemma_find_char_exact(k0, '\n', k0.len() as int);
            assert(split_lines_spec(k0) =~= seq![k0]);
            assert(seq![k0].drop_first() =~= kept.drop_first());
        }
    } else {
        let k0 = kept[0];
        let rest = kept.drop_first();
        assert(lines_clean(rest)) by {
            assert(forall|i: int| 0 <= i < rest.len() ==> rest[i] == kept[i + 1]);
        }
        assert(join_with(kept, nl) == k0 + nl + join_with(rest, nl));
        lemma_split_prepend(k0, join_with(rest, nl));
        lemma_join_split_count(rest, l);
        assert((seq![k0] + split_lines_spec(join_with(rest, nl))).drop_first()
            =~= split_lines_spec(join_with(rest, nl)));
    }
}

/// The dedup pass only keeps lines it was given.
proof fn lemma_dedup_filter_clean(lines: Seq<Seq<char>>, seen: Set<Seq<char>>)
    requires
        lines_clean(lines),
    ensures
        lines_clean(dedup_filter(lines, seen).0),
    decreases lines.len(),
{
    if lines.len() > 0 {
        let rest = lines.drop_first();
        assert(lines_clean(rest)) by {
            assert(forall|i: int| 0 <= i < rest.len() ==> rest[i] == lines[i + 1]);
        }
        let l0 = lines[0];
        if is_blank(l0) {
            lemma_dedup_filter_clean(rest, seen);
            let out = seq![l0] + dedup_filter(rest, seen).0;
            assert forall|i: int| 0 <= i < out.len() implies line_clean(#[trigger] out[i]) by {
                if i > 0 {
                    assert(out[i] == dedup_filter(rest, seen).0[i - 1]);
                }
            }
        } else if seen.contains(l0) {
            lemma_dedup_filter_clean(rest, seen);
        } else {
            lemma_dedup_filter_clean(rest, seen.insert(l0));
            let out = seq![l0] + dedup_filter(rest, seen.insert(l0)).0;
            assert forall|i: int| 0 <= i < out.len() implies line_clean(#[trigger] out[i]) by {
                if i > 0 {
                    assert(out[i] == dedup_filter(rest, seen.insert(l0)).0[i - 1]);
                }
            }
        }
    }
}

/// The newline-join of clean lines holds no carriage return.
proof fn lemma_join_no_cr(ls: Seq<Seq<char>>)
    requires
        lines_clean(ls),
    ensures
        no_cr(join_with(ls, seq!['\n'])),
    decreases ls.len(),
{
    let nl = seq!['\n'];
    if ls.len() == 1 {
        assert(join_with(ls, nl) == ls[0]);
    } else if ls.len() > 1 {
        let rest = ls.drop_first();
        assert(lines_clean(rest)) by {
            assert(forall|i: int| 0 <= i < rest.len() ==> rest[i] == ls[i + 1]);
        }
        lemma_join_no_cr(rest);
        let j = ls[0] + nl + join_with(rest, nl);
        assert forall|k: int| 0 <= k < j.len() implies j[k] != '\r' by {
            if k < ls[0].len() {
                assert(j[k] == ls[0][k]);
            } else if k == ls[0].len() {
                assert(j[k] == '\n');
            } else {
                assert(j[k] == join_with(rest, nl)[k - ls[0].len() - 1]);
            }
        }
    }
}

/// What one dedup pass does to the count of a non-blank line and to the
/// seen set.
proof fn lemma_dedup_filter_count(lines: Seq<Seq<char>>, seen: Set<Seq<char>>, l: Seq<char>)
    requires
        !is_blank(l),
    ensures
        dedup_filter(lines, seen).1.contains(l) <==> (seen.contains(l) || line_count(lines, l)
            > 0),
        line_count(dedup_filter(lines, seen).0, l) == (if seen.contains(l) {
            0nat
        } else if line_count(lines, l) > 0 {
            1nat
        } else {
            0nat
        }),
    decreases lines.len(),
{
    if lines.len() > 0 {
        let l0 = lines[0];
        let rest = lines.drop_first();
        if is_blank(l0) {
            lemma_dedup_filter_count(rest, seen, l);
            assert(l0 != l);
            let out0 = seq![l0] + dedup_filter(rest, seen).0;
            assert(out0.drop_first() =~= dedup_filter(rest, seen).0);
            assert(out0[0] == l0);
        } else if seen.contains(l0) {
            lemma_dedup_filter_count(rest, seen, l);
        } else {
            lemma_dedup_filter_count(rest, seen.insert(l0), l);
            let out0 = seq![l0] + dedup_filter(rest, seen.insert(l0)).0;
            assert(out0.drop_first() =~= dedup_filter(rest, seen.insert(l0)).0);
            assert(out0[0] == l0);
        }
    }
}

/// What the whole dedup walk does to the count of a non-blank line over the
/// final document's lines.
proof fn lemma_dedup_bodies_count(bodies: Seq<Seq<char>>, seen: Set<Seq<char>>, l: Seq<char>)
    requires
        forall|i: int| 0 <= i < bodies.len() ==> no_cr(#[trigger] bodies[i]),
        !is_blank(l),
    ensures
        dedup_bodies(bodies, seen).1.contains(l) <==> (seen.contains(l) || bodies_have(bodies, l)),
        line_count(doc_lines(dedup_bodies(bodies, seen).0), l) == (if seen.contains(l) {
            0nat
        } else if bodies_have(bodies, l) {
            1nat
        } else {
            0nat
        }),
    decreases bodies.len(),
{
    let nl = seq!['\n'];
    if bodies.len() == 0 {
        assert(!bodies_have(bodies, l));
    } else {
        let b0 = bodies[0];
        let rest = bodies.drop_first();
        assert(forall|i: int| 0 <= i < rest.len() ==> rest[i] == bodies[i + 1]);
        let lines0 = split_lines_spec(b0);
        lemma_split_lines_clean(b0);
        let pass = dedup_filter(lines0, seen);
        lemma_dedup_filter_count(lines0, seen, l);
        lemma_dedup_filter_clean(lines0, seen);
        // the first output text holds the kept lines, squeezed
        let joined = join_with(pass.0, nl);
        lemma_join_no_cr(pass.0);
        lemma_split_lines_clean(joined);
        lemma_collapse_split(split_lines_spec(joined), false);
        lemma_squeeze_count(split_lines_spec(joined), false, l);
        lemma_join_split_count(pass.0, l);
        let text0 = collapse_spec(joined);
        assert(line_count(split_lines_spec(text0), l) == line_count(pass.0, l));
        // the rest by induction
        lemma_dedup_bodies_count(rest, pass.1, l);
        let out = dedup_bodies(bodies, seen);
        assert(out.0 == seq![text0] + dedup_bodies(rest, pass.1).0);
        assert((seq![text0] + dedup_bodies(rest, pass.1).0).drop_first() =~= dedup_bodies(
            rest,
            pass.1,
        ).0);
        assert(doc_lines(out.0) == split_lines_spec(text0) + doc_lines(
            dedup_bodies(rest, pass.1).0,
        ));
        lemma_line_count_concat(
            split_lines_spec(text0),
            doc_lines(dedup_bodies(rest, pass.1).0),
            l,
        );
        // membership over all bodies splits into the first body and the rest
        assert(bodies_have(bodies, l) <==> (line_count(lines0, l) > 0 || bodies_have(rest, l)))
            by {
            if line_count(lines0, l) > 0 {
                assert(line_count(split_lines_spec(bodies[0]), l) > 0);
            }
            if bodies_have(rest, l) {
                let i = choose|i: int|
                    0 <= i < rest.len() && line_count(#[trigger] split_lines_spec(rest[i]), l)
                        > 0;
                assert(line_count(split_lines_spec(bodies[i + 1]), l) > 0);
            }
            if bodies_have(bodies, l) {
                let i = choose|i: int|
                    0 <= i < bodies.len() && line_count(
                        #[trigger] split_lines_spec(bodies[i]),
                        l,
                    ) > 0;
                if i > 0 {
                    assert(line_count(split_lines_spec(rest[i - 1]), l) > 0);
                }
            }
        }
    }
}

/// Over any list of carriage-return-free bodies, the deduped outputs hold
/// every non-blank line that occurs in any input exactly once over the whole
/// merged document, and no non-blank line twice.
pub proof fn lemma_cross_template_dedup(bodies: Seq<Seq<char>>, l: Seq<char>)
    requires
        forall|i: int| 0 <= i < bodies.len() ==> no_cr(#[trigger] bodies[i]),
        !is_blank(l),
    ensures
        line_count(doc_lines(trim_duplicate_lines_spec(bodies)), l) == (if bodies_have(
            bodies,
            l,
        ) {
            1nat
        } else {
            0nat
        }),
{
    lemma_dedup_bodies_count(bodies, Set::empty(), l);
}

} // verus!
