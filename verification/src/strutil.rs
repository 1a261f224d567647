//! String primitives the rest of the crate builds on: prefix/suffix tests,
//! substring search, ASCII case folding, line splitting and joining, and
//! decimal rendering of integers, each specified against a `Seq<char>` model.

use vstd::prelude::*;

verus! {

// ---------------------------------------------------------------------------
// Character classes
// ---------------------------------------------------------------------------

/// ASCII whitespace; a line whose characters all satisfy this counts as blank.
pub open spec fn is_space_char(c: char) -> bool {
    c == ' ' || c == '\t' || c == '\r' || c == '\n' || c == '\u{b}' || c == '\u{c}'
}

/// Executable test matching [`is_space_char`].
pub fn is_space_char_exec(c: char) -> (r: bool)
    ensures
        r == is_space_char(c),
{
    c == ' ' || c == '\t' || c == '\r' || c == '\n' || c == '\u{b}' || c == '\u{c}'
}

/// A sequence of characters is blank when every character is whitespace.
pub open spec fn is_blank(l: Seq<char>) -> bool {
    forall|i: int| 0 <= i < l.len() ==> is_space_char(l[i])
}

/// Executable test matching [`is_blank`].
pub fn is_blank_exec(s: &str) -> (r: bool)
    ensures
        r == is_blank(s@),
{
    let n = s.unicode_len();
    let mut i: usize = 0;
    while i < n
        invariant
            i <= n,
            n == s@.len(),
            forall|j: int| 0 <= j < i ==> is_space_char(s@[j]),
        decreases n - i,
    {
        if !is_space_char_exec(s.get_char(i)) {
            return false;
        }
        i += 1;
    }
    true
}

// ---------------------------------------------------------------------------
// Equality, prefixes and suffixes
// ---------------------------------------------------------------------------

/// `p` starts `s`.
pub open spec fn has_prefix(s: Seq<char>, p: Seq<char>) -> bool {
    p.len() <= s.len() && s.subrange(0, p.len() as int) == p
}

/// `p` ends `s`.
pub open spec fn has_suffix(s: Seq<char>, p: Seq<char>) -> bool {
    p.len() <= s.len() && s.subrange(s.len() - p.len(), s.len() as int) == p
}

/// Character-for-character equality of two string slices.
pub fn str_eq(a: &str, b: &str) -> (r: bool)
    ensures
        r == (a@ == b@),
{
    let na = a.unicode_len();
    let nb = b.unicode_len();
    if na != nb {
        proof {
            assert(a@ != b@);
        }
        return false;
    }
    let mut i: usize = 0;
    while i < na
        invariant
            i <= na,
            na == a@.len(),
            na == b@.len(),
            forall|j: int| 0 <= j < i ==> a@[j] == b@[j],
        decreases na - i,
    {
        if a.get_char(i) != b.get_char(i) {
            proof {
                assert(a@ != b@);
            }
            return false;
        }
        i += 1;
    }
    proof {
        assert(a@ =~= b@);
    }
    true
}

/// Whether `s` starts with `p`.
pub fn starts_with_str(s: &str, p: &str) -> (r: bool)
    ensures
        r == has_prefix(s@, p@),
{
    let ns = s.unicode_len();
    let np = p.unicode_len();
    if np > ns {
        return false;
    }
    let mut i: usize = 0;
    while i < np
        invariant
            i <= np,
            np <= ns,
            ns == s@.len(),
            np == p@.len(),
            forall|j: int| 0 <= j < i ==> s@[j] == p@[j],
        decreases np - i,
    {
        if s.get_char(i) != p.get_char(i) {
            proof {
                assert(s@.subrange(0, p@.len() as int)[i as int] != p@[i as int]);
            }
            return false;
        }
        i += 1;
    }
    proof {
        assert(s@.subrange(0, p@.len() as int) =~= p@);
    }
    true
}

/// Whether `s` ends with `p`.
pub fn ends_with_str(s: &str, p: &str) -> (r: bool)
    ensures
        r == has_suffix(s@, p@),
{
    let ns = s.unicode_len();
    let np = p.unicode_len();
    if np > ns {
        return false;
    }
    let off = ns - np;
    let mut i: usize = 0;
    while i < np
        invariant
            i <= np,
            np <= ns,
            off == ns - np,
            ns == s@.len(),
            np == p@.len(),
            forall|j: int| 0 <= j < i ==> s@[off + j] == p@[j],
        decreases np - i,
    {
        if s.get_char(off + i) != p.get_char(i) {
            proof {
                let gi = i as int;
                assert(s@.subrange(s@.len() - p@.len(), s@.len() as int)[gi] != p@[gi]);
            }
            return false;
        }
        i += 1;
    }
    proof {
        assert(s@.subrange(s@.len() - p@.len(), s@.len() as int) =~= p@);
    }
    true
}

/// Copies the character range `[from, to)` of `s` into an owned string.
pub fn substr_copy(s: &str, from: usize, to: usize) -> (r: String)
    requires
        from <= to <= s@.len(),
    ensures
        r@ == s@.subrange(from as int, to as int),
{
    s.substring_char(from, to).to_owned()
}

// ---------------------------------------------------------------------------
// Building strings
// ---------------------------------------------------------------------------

/// Relies on `String::push` from std: appends exactly the given character.
#[verifier::external_body]
pub fn push_char(s: &mut String, c: char)
    ensures
        final(s)@ == old(s)@.push(c),
{
    s.push(c);
}

/// `n` copies of `c`.
pub fn repeat_char(c: char, n: usize) -> (r: String)
    ensures
        r@ == Seq::new(n as nat, |i: int| c),
{
    let mut out = String::new();
    let mut i: usize = 0;
    while i < n
        invariant
            i <= n,
            out@ == Seq::new(i as nat, |j: int| c),
        decreases n - i,
    {
        push_char(&mut out, c);
        proof {
            assert(out@ =~= Seq::new((i + 1) as nat, |j: int| c));
        }
        i += 1;
    }
    out
}

// ---------------------------------------------------------------------------
// ASCII case folding
// ---------------------------------------------------------------------------

/// ASCII-only lower casing of one character.
pub open spec fn lower_char(c: char) -> char {
    match c {
        'A' => 'a',
        'B' => 'b',
        'C' => 'c',
        'D' => 'd',
        'E' => 'e',
        'F' => 'f',
        'G' => 'g',
        'H' => 'h',
        'I' => 'i',
        'J' => 'j',
        'K' => 'k',
        'L' => 'l',
        'M' => 'm',
        'N' => 'n',
        'O' => 'o',
        'P' => 'p',
        'Q' => 'q',
        'R' => 'r',
        'S' => 's',
        'T' => 't',
        'U' => 'u',
        'V' => 'v',
        'W' => 'w',
        'X' => 'x',
        'Y' => 'y',
        'Z' => 'z',
        _ => c,
    }
}

/// ASCII-only lower casing of a character sequence.
pub open spec fn lower_seq(s: Seq<char>) -> Seq<char> {
    s.map_values(|c: char| lower_char(c))
}

/// Executable ASCII lower casing of one character.
pub fn lower_char_exec(c: char) -> (r: char)
    ensures
        r == lower_char(c),
{
    match c {
        'A' => 'a',
        'B' => 'b',
        'C' => 'c',
        'D' => 'd',
        'E' => 'e',
        'F' => 'f',
        'G' => 'g',
        'H' => 'h',
        'I' => 'i',
        'J' => 'j',
        'K' => 'k',
        'L' => 'l',
        'M' => 'm',
        'N' => 'n',
        'O' => 'o',
        'P' => 'p',
        'Q' => 'q',
        'R' => 'r',
        'S' => 's',
        'T' => 't',
        'U' => 'u',
        'V' => 'v',
        'W' => 'w',
        'X' => 'x',
        'Y' => 'y',
        'Z' => 'z',
        _ => c,
    }
}

/// Executable ASCII lower casing of a string.
pub fn to_lowercase_ascii(s: &str) -> (r: String)
    ensures
        r@ == lower_seq(s@),
{
    let n = s.unicode_len();
    let mut out = String::new();
    let mut i: usize = 0;
    while i < n
        invariant
            i <= n,
            n == s@.len(),
            out@ == lower_seq(s@.subrange(0, i as int)),
        decreases n - i,
    {
        let c = lower_char_exec(s.get_char(i));
        push_char(&mut out, c);
        proof {
            assert(out@ =~= lower_seq(s@.subrange(0, i + 1 as int)));
        }
        i += 1;
    }
    proof {
        assert(s@.subrange(0, n as int) =~= s@);
    }
    out
}

// ---------------------------------------------------------------------------
// Substring search
// ---------------------------------------------------------------------------

/// `sub` occurs somewhere in `s`.
pub open spec fn contains_seq(s: Seq<char>, sub: Seq<char>) -> bool {
    exists|i: int|
        0 <= i <= s.len() - sub.len() && #[trigger] s.subrange(i, i + sub.len() as int) == sub
}

/// Whether the characters of `sub` occur contiguously in `s`.
pub fn contains_str(s: &str, sub: &str) -> (r: bool)
    ensures
        r == contains_seq(s@, sub@),
{
    let ns = s.unicode_len();
    let nsub = sub.unicode_len();
    if nsub > ns {
        return false;
    }
    let last = ns - nsub;
    let mut i: usize = 0;
    loop
        invariant
            i <= last,
            last == ns - nsub,
            nsub <= ns,
            ns == s@.len(),
            nsub == sub@.len(),
            forall|k: int| 0 <= k < i ==> #[trigger] s@.subrange(k, k + sub@.len() as int) != sub@,
        decreases last - i,
    {
        let mut j: usize = 0;
        let mut matched = true;
        while j < nsub
            invariant
                j <= nsub,
                i <= last,
                last == ns - nsub,
                ns == s@.len(),
                nsub == sub@.len(),
                matched ==> forall|m: int| 0 <= m < j ==> s@[i + m] == sub@[m],
                !matched ==> s@.subrange(i as int, i + sub@.len() as int) != sub@,
            decreases nsub - j,
        {
            if s.get_char(i + j) != sub.get_char(j) {
                proof {
                    let gi = i as int;
                    let gj = j as int;
                    assert(s@.subrange(gi, gi + sub@.len() as int)[gj] != sub@[gj]);
                }
                matched = false;
                j = nsub;
            } else {
                j += 1;
            }
        }
        if matched {
            proof {
                assert(s@.subrange(i as int, i + sub@.len() as int) =~= sub@);
            }
            return true;
        }
        if i == last {
            return false;
        }
        i += 1;
    }
}

// ---------------------------------------------------------------------------
// Counting characters
// ---------------------------------------------------------------------------

/// Number of occurrences of `c` in `s`.
pub open spec fn count_char(s: Seq<char>, c: char) -> nat
    decreases s.len(),
{
    if s.len() == 0 {
        0
    } else {
        count_char(s.drop_last(), c) + if s.last() == c {
            1nat
        } else {
            0nat
        }
    }
}

/// Executable count of the occurrences of `c` in `s`.
pub fn count_char_exec(s: &str, c: char) -> (r: usize)
    ensures
        r == count_char(s@, c),
{
    let n = s.unicode_len();
    let mut count: usize = 0;
    let mut i: usize = 0;
    while i < n
        invariant
            i <= n,
            n == s@.len(),
            count <= i,
            count == count_char(s@.subrange(0, i as int), c),
        decreases n - i,
    {
        if s.get_char(i) == c {
            count += 1;
        }
        proof {
            let pre = s@.subrange(0, i as int);
            let post = s@.subrange(0, i + 1 as int);
            assert(post.drop_last() =~= pre);
            assert(post.last() == s@[i as int]);
        }
        i += 1;
    }
    proof {
        assert(s@.subrange(0, n as int) =~= s@);
    }
    count
}

// ---------------------------------------------------------------------------
// Finding and splitting
// ---------------------------------------------------------------------------

/// Index of the first occurrence of `c` in `s` at or after `from`, or
/// `s.len()` when there is none (or `from` is out of range).
pub open spec fn find_char_at(s: Seq<char>, c: char, from: int) -> int
    decreases s.len() - from,
{
    if from < 0 || from >= s.len() {
        s.len() as int
    } else if s[from] == c {
        from
    } else {
        find_char_at(s, c, from + 1)
    }
}

/// Bounds and characterization of [`find_char_at`].
pub proof fn lemma_find_char_at(s: Seq<char>, c: char, from: int)
    requires
        0 <= from <= s.len(),
    ensures
        from <= find_char_at(s, c, from) <= s.len(),
        find_char_at(s, c, from) < s.len() ==> s[find_char_at(s, c, from)] == c,
        forall|j: int| from <= j < find_char_at(s, c, from) ==> s[j] != c,
    decreases s.len() - from,
{
    if from < s.len() && s[from] != c {
        lemma_find_char_at(s, c, from + 1);
    }
}

/// Executable first-occurrence search matching [`find_char_at`].
pub fn find_char(s: &str, c: char, from: usize) -> (r: usize)
    requires
        from <= s@.len(),
    ensures
        r == find_char_at(s@, c, from as int),
{
    let n = s.unicode_len();
    let mut i: usize = from;
    while i < n
        invariant
            from <= i <= n,
            n == s@.len(),
            find_char_at(s@, c, from as int) == find_char_at(s@, c, i as int),
        decreases n - i,
    {
        if s.get_char(i) == c {
            return i;
        }
        i += 1;
    }
    i
}

/// Drops a single trailing carriage return, the way `str::lines` treats a
/// `\r\n` ending.
pub open spec fn chop_cr(l: Seq<char>) -> Seq<char> {
    if l.len() > 0 && l[l.len() - 1] == '\r' {
        l.drop_last()
    } else {
        l
    }
}

/// The line decomposition of `s`: segments split at `\n`, each segment losing
/// a trailing `\r`, a final segment without `\n` kept as written, and no empty
/// final segment for inputs ending in `\n`.
pub open spec fn split_lines_spec(s: Seq<char>) -> Seq<Seq<char>>
    decreases s.len(),
{
    if s.len() == 0 {
        Seq::empty()
    } else {
        let i = find_char_at(s, '\n', 0);
        if 0 <= i < s.len() {
            seq![chop_cr(s.subrange(0, i))] + split_lines_spec(
                s.subrange(i + 1, s.len() as int),
            )
        } else {
            seq![s]
        }
    }
}

/// The segments of `s` split at every occurrence of `c`; splitting the empty
/// sequence gives one empty segment.
pub open spec fn split_char_spec(s: Seq<char>, c: char) -> Seq<Seq<char>>
    decreases s.len(),
{
    let i = find_char_at(s, c, 0);
    if 0 <= i < s.len() {
        seq![s.subrange(0, i)] + split_char_spec(s.subrange(i + 1, s.len() as int), c)
    } else {
        seq![s]
    }
}

/// Executable split at a separator character, matching [`split_char_spec`].
pub fn split_char_exec(s: &str, c: char) -> (r: Vec<String>)
    ensures
        r.deep_view() == split_char_spec(s@, c),
{
    let n = s.unicode_len();
    let mut parts: Vec<String> = Vec::new();
    let mut start: usize = 0;
    proof {
        assert(s@.subrange(0, n as int) =~= s@);
    }
    loop
        invariant
            start <= n,
            n == s@.len(),
            split_char_spec(s@, c) =~= parts.deep_view() + split_char_spec(
                s@.subrange(start as int, n as int),
                c,
            ),
        decreases n - start,
    {
        let i = find_char(s, c, start);
        proof {
            lemma_find_char_at(s@, c, start as int);
            lemma_find_offset(s@, c, start as int);
        }
        let piece = substr_copy(s, start, i);
        let ghost old_parts = parts.deep_view();
        parts.push(piece);
        proof {
            assert(parts.deep_view() =~= old_parts.push(piece@));
            let tail = s@.subrange(start as int, n as int);
            assert(tail.subrange(0, (i - start) as int) =~= s@.subrange(start as int, i as int));
        }
        if i == n {
            proof {
                let tail = s@.subrange(start as int, n as int);
                assert(split_char_spec(tail, c) =~= seq![tail]);
                assert(tail =~= s@.subrange(start as int, i as int));
                assert(split_char_spec(s@, c) =~= parts.deep_view());
            }
            return parts;
        }
        proof {
            let tail = s@.subrange(start as int, n as int);
            let fi = find_char_at(tail, c, 0);
            assert(fi == i - start);
            assert(tail.subrange(fi + 1, tail.len() as int) =~= s@.subrange(
                i + 1 as int,
                n as int,
            ));
        }
        start = i + 1;
    }
}

/// Finding a character in a suffix of `s` mirrors finding it in `s` itself.
pub proof fn lemma_find_offset(s: Seq<char>, c: char, start: int)
    requires
        0 <= start <= s.len(),
    ensures
        find_char_at(s, c, start) == start + find_char_at(
            s.subrange(start, s.len() as int),
            c,
            0,
        ),
{
    let tail = s.subrange(start, s.len() as int);
    lemma_find_char_at(s, c, start);
    lemma_find_char_at(tail, c, 0);
    let fs = find_char_at(s, c, start);
    let ft = find_char_at(tail, c, 0);
    // each bound forces the other: tail[j] == s[start + j]
    if fs < start + ft {
        assert(tail[fs - start] == c);
    } else if fs > start + ft {
        if ft < tail.len() {
            assert(s[start + ft] == c);
        }
    }
}

/// Executable line decomposition matching [`split_lines_spec`].
pub fn split_lines_exec(s: &str) -> (r: Vec<String>)
    ensures
        r.deep_view() == split_lines_spec(s@),
{
    let n = s.unicode_len();
    let mut parts: Vec<String> = Vec::new();
    let mut start: usize = 0;
    proof {
        assert(s@.subrange(0, n as int) =~= s@);
    }
    while start < n
        invariant
            start <= n,
            n == s@.len(),
            split_lines_spec(s@) =~= parts.deep_view() + split_lines_spec(
                s@.subrange(start as int, n as int),
            ),
        decreases n - start,
    {
        let i = find_char(s, '\n', start);
        proof {
            lemma_find_char_at(s@, '\n', start as int);
            lemma_find_offset(s@, '\n', start as int);
        }
        let ghost tail = s@.subrange(start as int, n as int);
        let ghost old_parts = parts.deep_view();
        if i == n {
            // final segment with no newline: kept whole, carriage return and all
            let piece = substr_copy(s, start, n);
            parts.push(piece);
            proof {
                assert(parts.deep_view() =~= old_parts.push(tail));
                assert(split_lines_spec(tail) =~= seq![tail]);
                assert(split_lines_spec(s@) =~= parts.deep_view());
            }
            return parts;
        }
        let piece = if i > start && s.get_char(i - 1) == '\r' {
            substr_copy(s, start, i - 1)
        } else {
            substr_copy(s, start, i)
        };
        parts.push(piece);
        proof {
            let fi = find_char_at(tail, '\n', 0);
            assert(fi == i - start);
            let seg = tail.subrange(0, fi);
            assert(seg =~= s@.subrange(start as int, i as int));
            if i > start && s@[i - 1] == '\r' {
                assert(chop_cr(seg) =~= s@.subrange(start as int, i - 1 as int));
            } else {
                assert(chop_cr(seg) =~= seg);
            }
            assert(parts.deep_view() =~= old_parts.push(chop_cr(seg)));
            assert(tail.subrange(fi + 1, tail.len() as int) =~= s@.subrange(
                i + 1 as int,
                n as int,
            ));
        }
        start = i + 1;
    }
    proof {
        assert(s@.subrange(start as int, n as int).len() == 0);
        assert(split_lines_spec(s@) =~= parts.deep_view());
    }
    parts
}

// ---------------------------------------------------------------------------
// Joining
// ---------------------------------------------------------------------------

/// Concatenation of `ls` with `sep` between neighbouring elements.
pub open spec fn join_with(ls: Seq<Seq<char>>, sep: Seq<char>) -> Seq<char>
    decreases ls.len(),
{
    if ls.len() == 0 {
        Seq::empty()
    } else if ls.len() == 1 {
        ls[0]
    } else {
        ls[0] + sep + join_with(ls.drop_first(), sep)
    }
}

/// Appending one element to a joined sequence extends it by one separator and
/// that element.
pub proof fn lemma_join_push(ls: Seq<Seq<char>>, sep: Seq<char>, x: Seq<char>)
    ensures
        ls.len() == 0 ==> join_with(ls.push(x), sep) == x,
        ls.len() > 0 ==> join_with(ls.push(x), sep) == join_with(ls, sep) + sep + x,
    decreases ls.len(),
{
    if ls.len() == 0 {
        assert(ls.push(x)[0] == x);
        assert(join_with(ls.push(x), sep) == x);
    } else if ls.len() == 1 {
        assert(ls.push(x).drop_first() =~= seq![x]);
        assert(ls.push(x)[0] == ls[0]);
        assert(join_with(seq![x], sep) == x);
        assert(join_with(ls.push(x), sep) == ls[0] + sep + x);
    } else {
        lemma_join_push(ls.drop_first(), sep, x);
        assert(ls.push(x).drop_first() =~= ls.drop_first().push(x));
        assert(join_with(ls, sep) + sep + x =~= ls[0] + sep + (join_with(
            ls.drop_first(),
            sep,
        ) + sep + x));
    }
}

/// Executable join matching [`join_with`].
pub fn join_str(parts: &Vec<String>, sep: &str) -> (r: String)
    ensures
        r@ == join_with(parts.deep_view(), sep@),
{
    let mut out = String::new();
    let mut i: usize = 0;
    while i < parts.len()
        invariant
            i <= parts.len(),
            out@ == join_with(parts.deep_view().take(i as int), sep@),
        decreases parts.len() - i,
    {
        if i > 0 {
            out.append(sep);
        }
        out.append(parts[i].as_str());
        proof {
            let dv = parts.deep_view();
            assert(dv.take(i + 1 as int).drop_last() =~= dv.take(i as int));
            assert(dv.take(i + 1 as int) =~= dv.take(i as int).push(dv[i as int]));
            lemma_join_push(dv.take(i as int), sep@, dv[i as int]);
        }
        i += 1;
    }
    proof {
        assert(parts.deep_view().take(parts.len() as int) =~= parts.deep_view());
    }
    out
}

// ---------------------------------------------------------------------------
// Trimming
// ---------------------------------------------------------------------------

/// `s` without leading whitespace.
pub open spec fn trim_start_spec(s: Seq<char>) -> Seq<char>
    decreases s.len(),
{
    if s.len() > 0 && is_space_char(s[0]) {
        trim_start_spec(s.drop_first())
    } else {
        s
    }
}

/// `s` without trailing whitespace.
pub open spec fn trim_end_spec(s: Seq<char>) -> Seq<char>
    decreases s.len(),
{
    if s.len() > 0 && is_space_char(s.last()) {
        trim_end_spec(s.drop_last())
    } else {
        s
    }
}

/// `s` without leading or trailing whitespace.
pub open spec fn trim_spec(s: Seq<char>) -> Seq<char> {
    trim_end_spec(trim_start_spec(s))
}

/// Executable trim matching [`trim_spec`].
pub fn trim_str(s: &str) -> (r: String)
    ensures
        r@ == trim_spec(s@),
{
    let n = s.unicode_len();
    proof {
        assert(s@.subrange(0, n as int) =~= s@);
    }
    let mut a: usize = 0;
    while a < n && is_space_char_exec(s.get_char(a))
        invariant
            a <= n,
            n == s@.len(),
            trim_start_spec(s@) == trim_start_spec(s@.subrange(a as int, n as int)),
        decreases n - a,
    {
        proof {
            let t = s@.subrange(a as int, n as int);
            assert(t.drop_first() =~= s@.subrange(a + 1 as int, n as int));
        }
        a += 1;
    }
    proof {
        let t = s@.subrange(a as int, n as int);
        if a < n {
            assert(trim_start_spec(t) == t);
        } else {
            assert(t.len() == 0);
            assert(trim_start_spec(t) == t);
        }
    }
    let mut b: usize = n;
    while b > a && is_space_char_exec(s.get_char(b - 1))
        invariant
            a <= b <= n,
            n == s@.len(),
            trim_start_spec(s@) == s@.subrange(a as int, n as int),
            trim_end_spec(s@.subrange(a as int, n as int)) == trim_end_spec(
                s@.subrange(a as int, b as int),
            ),
        decreases b,
    {
        proof {
            let t = s@.subrange(a as int, b as int);
            assert(t.last() == s@[b - 1]);
            assert(t.drop_last() =~= s@.subrange(a as int, b - 1 as int));
        }
        b -= 1;
    }
    proof {
        let t = s@.subrange(a as int, b as int);
        if b > a {
            assert(t.last() == s@[b - 1]);
            assert(trim_end_spec(t) == t);
        } else {
            assert(t.len() == 0);
            assert(trim_end_spec(t) == t);
        }
    }
    substr_copy(s, a, b)
}

// ---------------------------------------------------------------------------
// Decimal rendering
// ---------------------------------------------------------------------------

/// The digit character for one decimal digit.
pub open spec fn digit_char(d: int) -> char {
    if d == 0 {
        '0'
    } else if d == 1 {
        '1'
    } else if d == 2 {
        '2'
    } else if d == 3 {
        '3'
    } else if d == 4 {
        '4'
    } else if d == 5 {
        '5'
    } else if d == 6 {
        '6'
    } else if d == 7 {
        '7'
    } else if d == 8 {
        '8'
    } else {
        '9'
    }
}

/// Decimal rendering of a non-negative integer, most significant digit first.
pub open spec fn dec_str(n: int) -> Seq<char>
    decreases n,
{
    if n <= 9 {
        seq![digit_char(n)]
    } else {
        dec_str(n / 10).push(digit_char(n % 10))
    }
}

/// Executable decimal rendering matching [`dec_str`].
pub fn usize_to_string(n: usize) -> (r: String)
    ensures
        r@ == dec_str(n as int),
{
    let mut digits: Vec<char> = Vec::new();
    let mut m: usize = n;
    while m > 9
        invariant
            dec_str(n as int) =~= dec_str(m as int) + digits@.reverse(),
        decreases m,
    {
        let d = m % 10;
        let c = digit_char_exec(d);
        let ghost old_digits = digits@;
        digits.push(c);
        proof {
            assert(digits@.reverse() =~= seq![c] + old_digits.reverse());
            assert(dec_str(m as int) =~= dec_str(m as int / 10) + seq![
                digit_char(m as int % 10)
            ]);
            assert(dec_str(m as int / 10) + digits@.reverse() =~= dec_str(m as int)
                + old_digits.reverse());
        }
        m = m / 10;
    }
    let c = digit_char_exec(m);
    let ghost all = dec_str(n as int);
    proof {
        assert(dec_str(m as int) =~= seq![digit_char(m as int)]);
        assert(all =~= seq![c] + digits@.reverse());
    }
    let mut out = String::new();
    push_char(&mut out, c);
    let mut k: usize = digits.len();
    while k > 0
        invariant
            k <= digits@.len(),
            all =~= seq![c] + digits@.reverse(),
            out@ =~= all.take(all.len() - k),
        decreases k,
    {
        push_char(&mut out, digits[k - 1]);
        proof {
            assert(digits@.reverse()[digits@.len() - k] == digits@[k - 1]);
            assert(out@ =~= all.take(all.len() - (k - 1)));
        }
        k -= 1;
    }
    proof {
        assert(out@ =~= all);
    }
    out
}

/// Executable digit rendering matching [`digit_char`].
pub fn digit_char_exec(d: usize) -> (r: char)
    requires
        d <= 9,
    ensures
        r == digit_char(d as int),
{
    match d {
        0 => '0',
        1 => '1',
        2 => '2',
        3 => '3',
        4 => '4',
        5 => '5',
        6 => '6',
        7 => '7',
        8 => '8',
        _ => '9',
    }
}

// ---------------------------------------------------------------------------
// Stripping lists of prefixes and suffixes
// ---------------------------------------------------------------------------

/// Strips the first listed prefix that starts `input`, if any.
pub fn strip_prefixes<'a>(input: &'a str, prefixes: &Vec<&str>) -> (r: Option<&'a str>)
    ensures
        match r {
            Some(t) => exists|i: int|
                0 <= i < prefixes@.len() && #[trigger] has_prefix(input@, prefixes@[i]@) && (
                forall|j: int| 0 <= j < i ==> !has_prefix(input@, #[trigger] prefixes@[j]@))
                    && t@ == input@.skip(prefixes@[i]@.len() as int),
            None => forall|i: int|
                0 <= i < prefixes@.len() ==> !has_prefix(input@, #[trigger] prefixes@[i]@),
        },
{
    let mut k: usize = 0;
    while k < prefixes.len()
        invariant
            k <= prefixes@.len(),
            forall|j: int| 0 <= j < k ==> !has_prefix(input@, #[trigger] prefixes@[j]@),
        decreases prefixes@.len() - k,
    {
        let p = prefixes[k];
        if starts_with_str(input, p) {
            let np = p.unicode_len();
            let n = input.unicode_len();
            let t = input.substring_char(np, n);
            proof {
                assert(t@ =~= input@.skip(prefixes@[k as int]@.len() as int));
            }
            return Some(t);
        }
        k += 1;
    }
    None
}

/// Strips the first listed suffix that ends `input`, if any.
pub fn strip_suffixes<'a>(input: &'a str, suffixes: &Vec<&str>) -> (r: Option<&'a str>)
    ensures
        match r {
            Some(t) => exists|i: int|
                0 <= i < suffixes@.len() && #[trigger] has_suffix(input@, suffixes@[i]@) && (
                forall|j: int| 0 <= j < i ==> !has_suffix(input@, #[trigger] suffixes@[j]@))
                    && t@ == input@.take(input@.len() - suffixes@[i]@.len()),
            None => forall|i: int|
                0 <= i < suffixes@.len() ==> !has_suffix(input@, #[trigger] suffixes@[i]@),
        },
{
    let mut k: usize = 0;
    while k < suffixes.len()
        invariant
            k <= suffixes@.len(),
            forall|j: int| 0 <= j < k ==> !has_suffix(input@, #[trigger] suffixes@[j]@),
        decreases suffixes@.len() - k,
    {
        let p = suffixes[k];
        if ends_with_str(input, p) {
            let np = p.unicode_len();
            let n = input.unicode_len();
            let t = input.substring_char(0, n - np);
            proof {
                assert(t@ =~= input@.take(input@.len() - suffixes@[k as int]@.len()));
            }
            return Some(t);
        }
        k += 1;
    }
    None
}

// ---------------------------------------------------------------------------
// Collapsing runs of blank lines
// ---------------------------------------------------------------------------

/// One pass over a line list: every non-blank line is emitted followed by a
/// newline, and each maximal run of blank lines becomes a single newline.
/// `prev_blank` records whether a blank run is already open.
pub open spec fn collapse_lines(ls: Seq<Seq<char>>, prev_blank: bool) -> Seq<char>
    decreases ls.len(),
{
    if ls.len() == 0 {
        Seq::empty()
    } else if is_blank(ls[0]) {
        if prev_blank {
            collapse_lines(ls.drop_first(), true)
        } else {
            seq!['\n'] + collapse_lines(ls.drop_first(), true)
        }
    } else {
        ls[0] + seq!['\n'] + collapse_lines(ls.drop_first(), false)
    }
}

/// The collapse pass applied to the line decomposition of `s`.
pub open spec fn collapse_spec(s: Seq<char>) -> Seq<char> {
    collapse_lines(split_lines_spec(s), false)
}

/// Replaces every run of consecutive blank lines with a single empty line,
/// keeping non-blank lines as they are.
pub fn replace_multiple_empty_lines(input: &str) -> (r: String)
    ensures
        r@ == collapse_spec(input@),
{
    let lines = split_lines_exec(input);
    let ghost dv = lines.deep_view();
    let mut out = String::new();
    let mut prev_blank = false;
    let mut j: usize = 0;
    proof {
        assert(dv.skip(0) =~= dv);
    }
    while j < lines.len()
        invariant
            j <= lines.len(),
            dv == lines.deep_view(),
            collapse_spec(input@) == out@ + collapse_lines(dv.skip(j as int), prev_blank),
        decreases lines.len() - j,
    {
        proof {
            assert(dv.skip(j as int)[0] == dv[j as int]);
            assert(dv.skip(j as int).drop_first() =~= dv.skip(j + 1 as int));
        }
        let ghost out0 = out@;
        let ghost l = dv[j as int];
        if is_blank_exec(lines[j].as_str()) {
            if !prev_blank {
                push_char(&mut out, '\n');
                proof {
                    assert(out@ =~= out0 + seq!['\n']);
                    assert(out@ + collapse_lines(dv.skip(j + 1 as int), true) =~= out0
                        + collapse_lines(dv.skip(j as int), false));
                }
                prev_blank = true;
            }
        } else {
            out.append(lines[j].as_str());
            push_char(&mut out, '\n');
            proof {
                assert(out@ =~= out0 + l + seq!['\n']);
                assert(out@ + collapse_lines(dv.skip(j + 1 as int), false) =~= out0
                    + collapse_lines(dv.skip(j as int), prev_blank));
            }
            prev_blank = false;
        }
        j += 1;
    }
    proof {
        assert(dv.skip(lines.len() as int).len() == 0);
    }
    out
}

// ---------------------------------------------------------------------------
// Cross-template line dedup
// ---------------------------------------------------------------------------

/// Walks one body's lines against a set of already-seen non-blank lines:
/// blank lines are always kept, a non-blank line is kept exactly when it is
/// not yet in the set, and every kept non-blank line enters the set.
pub open spec fn dedup_filter(lines: Seq<Seq<char>>, seen: Set<Seq<char>>) -> (
    Seq<Seq<char>>,
    Set<Seq<char>>,
)
    decreases lines.len(),
{
    if lines.len() == 0 {
        (Seq::empty(), seen)
    } else {
        let l = lines[0];
        if is_blank(l) {
            let rest = dedup_filter(lines.drop_first(), seen);
            (seq![l] + rest.0, rest.1)
        } else if seen.contains(l) {
            dedup_filter(lines.drop_first(), seen)
        } else {
            let rest = dedup_filter(lines.drop_first(), seen.insert(l));
            (seq![l] + rest.0, rest.1)
        }
    }
}

/// Walks the bodies in list order, threading the seen set through all of
/// them; each body's surviving lines are rejoined and its blank runs
/// collapsed.
pub open spec fn dedup_bodies(bodies: Seq<Seq<char>>, seen: Set<Seq<char>>) -> (
    Seq<Seq<char>>,
    Set<Seq<char>>,
)
    decreases bodies.len(),
{
    if bodies.len() == 0 {
        (Seq::empty(), seen)
    } else {
        let first = dedup_filter(split_lines_spec(bodies[0]), seen);
        let rest = dedup_bodies(bodies.drop_first(), first.1);
        (seq![collapse_spec(join_with(first.0, seq!['\n']))] + rest.0, rest.1)
    }
}

/// What [`trim_duplicate_lines`] returns: the bodies deduped against an
/// initially empty seen set.
pub open spec fn trim_duplicate_lines_spec(bodies: Seq<Seq<char>>) -> Seq<Seq<char>> {
    dedup_bodies(bodies, Set::empty()).0
}

/// Dedup yields exactly one output body per input body.
pub proof fn lemma_dedup_bodies_len(bodies: Seq<Seq<char>>, seen: Set<Seq<char>>)
    ensures
        dedup_bodies(bodies, seen).0.len() == bodies.len(),
    decreases bodies.len(),
{
    if bodies.len() > 0 {
        let first = dedup_filter(split_lines_spec(bodies[0]), seen);
        lemma_dedup_bodies_len(bodies.drop_first(), first.1);
    }
}

/// Linear membership test among the already-seen lines.
fn contains_line(seen: &Vec<String>, line: &str) -> (r: bool)
    ensures
        r == seen.deep_view().contains(line@),
{
    let mut i: usize = 0;
    while i < seen.len()
        invariant
            i <= seen.len(),
            forall|j: int| 0 <= j < i ==> seen.deep_view()[j] != line@,
        decreases seen.len() - i,
    {
        if str_eq(seen[i].as_str(), line) {
            proof {
                assert(seen.deep_view()[i as int] == line@);
            }
            return true;
        }
        i += 1;
    }
    proof {
        assert(!seen.deep_view().contains(line@));
    }
    false
}

/// Removes every repeated non-blank line across the given bodies: a non-blank
/// line survives only at its first occurrence over the whole list, blank
/// lines always survive, and each body's remaining blank runs are collapsed.
pub fn trim_duplicate_lines(strings: Vec<String>) -> (r: Vec<String>)
    ensures
        r.deep_view() == trim_duplicate_lines_spec(strings.deep_view()),
{
    let ghost bodies = strings.deep_view();
    let mut seen: Vec<String> = Vec::new();
    let ghost mut cur_set: Set<Seq<char>> = Set::empty();
    let mut result: Vec<String> = Vec::new();
    let mut b: usize = 0;
    proof {
        assert(bodies.skip(0) =~= bodies);
    }
    while b < strings.len()
        invariant
            b <= strings.len(),
            bodies == strings.deep_view(),
            dedup_bodies(bodies, Set::empty()).0 == result.deep_view() + dedup_bodies(
                bodies.skip(b as int),
                cur_set,
            ).0,
            forall|x: Seq<char>| cur_set.contains(x) <==> seen.deep_view().contains(x),
        decreases strings.len() - b,
    {
        proof {
            assert(bodies.skip(b as int)[0] == bodies[b as int]);
            assert(bodies.skip(b as int).drop_first() =~= bodies.skip(b + 1 as int));
        }
        let lines = split_lines_exec(strings[b].as_str());
        let ghost ldv = lines.deep_view();
        let ghost set_b = cur_set;
        let mut kept: Vec<String> = Vec::new();
        let mut j: usize = 0;
        proof {
            assert(ldv.skip(0) =~= ldv);
        }
        while j < lines.len()
            invariant
                j <= lines.len(),
                ldv == lines.deep_view(),
                dedup_filter(ldv, set_b).0 == kept.deep_view() + dedup_filter(
                    ldv.skip(j as int),
                    cur_set,
                ).0,
                dedup_filter(ldv, set_b).1 == dedup_filter(ldv.skip(j as int), cur_set).1,
                forall|x: Seq<char>| cur_set.contains(x) <==> seen.deep_view().contains(x),
            decreases lines.len() - j,
        {
            proof {
                assert(ldv.skip(j as int)[0] == ldv[j as int]);
                assert(ldv.skip(j as int).drop_first() =~= ldv.skip(j + 1 as int));
            }
            let ghost l = ldv[j as int];
            let ghost cur0 = cur_set;
            let line = &lines[j];
            if is_blank_exec(line.as_str()) {
                let ghost kept0 = kept.deep_view();
                kept.push(line.clone());
                proof {
                    assert(kept.deep_view() =~= kept0.push(l));
                    assert(kept.deep_view() + dedup_filter(ldv.skip(j + 1 as int), cur_set).0
                        =~= kept0 + dedup_filter(ldv.skip(j as int), cur_set).0);
                }
            } else if contains_line(&seen, line.as_str()) {
                // repeated non-blank line: dropped
            } else {
                let ghost kept0 = kept.deep_view();
                let ghost seen0 = seen.deep_view();
                seen.push(line.clone());
                kept.push(line.clone());
                proof {
                    assert(kept.deep_view() =~= kept0.push(l));
                    assert(seen.deep_view() =~= seen0.push(l));
                    cur_set = cur0.insert(l);
                    assert forall|x: Seq<char>|
                        cur_set.contains(x) <==> seen.deep_view().contains(x) by {
                        if seen.deep_view().contains(x) {
                            let idx = choose|idx: int|
                                0 <= idx < seen.deep_view().len() && seen.deep_view()[idx] == x;
                            if idx < seen0.len() {
                                assert(seen0[idx] == x);
                                assert(seen0.contains(x));
                            }
                        }
                        if cur0.contains(x) {
                            let idx = choose|idx: int|
                                0 <= idx < seen0.len() && seen0[idx] == x;
                            assert(seen.deep_view()[idx] == x);
                            assert(seen.deep_view().contains(x));
                        }
                        if x == l {
                            assert(seen.deep_view()[seen0.len() as int] == l);
                            assert(seen.deep_view().contains(x));
                        }
                    }
                    assert(!cur0.contains(l));
                    assert(kept.deep_view() + dedup_filter(ldv.skip(j + 1 as int), cur_set).0
                        =~= kept0 + dedup_filter(ldv.skip(j as int), cur0).0);
                }
            }
            j += 1;
        }
        proof {
            assert(ldv.skip(lines.len() as int).len() == 0);
        }
        let joined = join_str(&kept, "\n");
        let collapsed = replace_multiple_empty_lines(joined.as_str());
        let ghost res0 = result.deep_view();
        result.push(collapsed);
        proof {
            reveal_strlit("\n");
            assert("\n"@ =~= seq!['\n']);
            assert(result.deep_view() =~= res0.push(collapse_spec(join_with(
                dedup_filter(split_lines_spec(bodies[b as int]), set_b).0,
                seq!['\n'],
            ))));
            assert(result.deep_view() + dedup_bodies(bodies.skip(b + 1 as int), cur_set).0
                =~= res0 + dedup_bodies(bodies.skip(b as int), set_b).0);
        }
        b += 1;
    }
    proof {
        assert(bodies.skip(strings.len() as int).len() == 0);
        assert(result.deep_view() =~= trim_duplicate_lines_spec(bodies));
    }
    result
}

} // verus!
