//! Character-sequence model of the text handling the library needs: the
//! code-point order of strings, equality, whitespace trimming, line and
//! separator splitting, substring search and decimal parsing.
//!
//! Every exec function here is proved against a spec function over
//! `Seq<char>`, so the parsers and registries built on top of them can
//! state their contracts over the views of their `&str` arguments.

use vstd::prelude::*;
use vstd::string::{StrSliceExecFns, StringExecFns};

verus! {

// ---------------------------------------------------------------------------
// Order of strings
// ---------------------------------------------------------------------------

/// Lexicographic order of two character sequences by code point, a proper
/// prefix coming first. This is the order of `str`/`String` in Rust (their
/// byte order on UTF-8 is the code-point order).
pub open spec fn char_seq_lt(a: Seq<char>, b: Seq<char>) -> bool
    decreases a.len(),
{
    if a.len() == 0 {
        b.len() > 0
    } else if b.len() == 0 {
        false
    } else if a[0] != b[0] {
        (a[0] as int) < (b[0] as int)
    } else {
        char_seq_lt(a.drop_first(), b.drop_first())
    }
}

pub proof fn lemma_char_seq_lt_irreflexive(a: Seq<char>)
    ensures
        !char_seq_lt(a, a),
    decreases a.len(),
{
    if a.len() > 0 {
        lemma_char_seq_lt_irreflexive(a.drop_first());
    }
}

pub proof fn lemma_char_seq_lt_transitive(a: Seq<char>, b: Seq<char>, c: Seq<char>)
    requires
        char_seq_lt(a, b),
        char_seq_lt(b, c),
    ensures
        char_seq_lt(a, c),
    decreases a.len(),
{
    if a.len() > 0 && b.len() > 0 && c.len() > 0 {
        if a[0] == b[0] && b[0] == c[0] {
            lemma_char_seq_lt_transitive(a.drop_first(), b.drop_first(), c.drop_first());
        }
    }
}

pub proof fn lemma_char_seq_lt_total(a: Seq<char>, b: Seq<char>)
    requires
        a != b,
    ensures
        char_seq_lt(a, b) || char_seq_lt(b, a),
    decreases a.len(),
{
    if a.len() == 0 && b.len() == 0 {
        assert(a =~= b);
    } else if a.len() > 0 && b.len() > 0 && a[0] == b[0] {
        if a.drop_first() == b.drop_first() {
            assert(a =~= seq![a[0]] + a.drop_first());
            assert(b =~= seq![b[0]] + b.drop_first());
        }
        lemma_char_seq_lt_total(a.drop_first(), b.drop_first());
    } else if a.len() > 0 && b.len() > 0 {
        assert((a[0] as int) != (b[0] as int));
    }
}

pub proof fn lemma_char_seq_lt_asymmetric(a: Seq<char>, b: Seq<char>)
    requires
        char_seq_lt(a, b),
    ensures
        !char_seq_lt(b, a),
{
    if char_seq_lt(b, a) {
        lemma_char_seq_lt_transitive(a, b, a);
        lemma_char_seq_lt_irreflexive(a);
    }
}

/// A sequence of names in strictly increasing code-point order (so no name
/// occurs twice).
pub open spec fn strictly_sorted(s: Seq<Seq<char>>) -> bool {
    forall|i: int, j: int| 0 <= i < j < s.len() ==> char_seq_lt(#[trigger] s[i], #[trigger] s[j])
}

pub proof fn lemma_strictly_sorted_no_duplicates(s: Seq<Seq<char>>)
    requires
        strictly_sorted(s),
    ensures
        s.no_duplicates(),
{
    assert forall|i: int, j: int| 0 <= i < s.len() && 0 <= j < s.len() && i != j implies s[i]
        != s[j] by {
        if i < j {
            if s[i] == s[j] {
                lemma_char_seq_lt_irreflexive(s[i]);
            }
        } else {
            if s[i] == s[j] {
                lemma_char_seq_lt_irreflexive(s[j]);
            }
        }
    }
}

// ---------------------------------------------------------------------------
// Reading characters
// ---------------------------------------------------------------------------

/// The characters of `s`, in order.
pub fn chars_of(s: &str) -> (v: Vec<char>)
    ensures
        v@ == s@,
{
    let n = s.unicode_len();
    let mut v: Vec<char> = Vec::new();
    let mut i: usize = 0;
    while i < n
        invariant
            n == s@.len(),
            i <= n,
            v@ == s@.subrange(0, i as int),
        decreases n - i,
    {
        let c = s.get_char(i);
        v.push(c);
        i = i + 1;
        assert(v@ =~= s@.subrange(0, i as int));
    }
    assert(v@ =~= s@);
    v
}

/// Whether `a` comes before `b` in code-point order.
pub fn str_lt(a: &str, b: &str) -> (r: bool)
    ensures
        r == char_seq_lt(a@, b@),
{
    let va = chars_of(a);
    let vb = chars_of(b);
    let na = va.len();
    let nb = vb.len();
    let mut i: usize = 0;
    assert(a@.subrange(0, na as int) =~= a@);
    assert(b@.subrange(0, nb as int) =~= b@);
    while i < na && i < nb
        invariant
            na == va@.len(),
            nb == vb@.len(),
            va@ == a@,
            vb@ == b@,
            i <= na,
            i <= nb,
            char_seq_lt(a@, b@) == char_seq_lt(
                a@.subrange(i as int, na as int),
                b@.subrange(i as int, nb as int),
            ),
        decreases na - i,
    {
        let x = va[i];
        let y = vb[i];
        if x != y {
            return x < y;
        }
        assert(a@.subrange(i as int, na as int).drop_first() =~= a@.subrange(
            i + 1,
            na as int,
        ));
        assert(b@.subrange(i as int, nb as int).drop_first() =~= b@.subrange(
            i + 1,
            nb as int,
        ));
        i = i + 1;
    }
    na - i == 0 && nb - i > 0
}

/// Whether `a` and `b` hold the same characters.
pub fn str_eq(a: &str, b: &str) -> (r: bool)
    ensures
        r == (a@ == b@),
{
    let va = chars_of(a);
    let vb = chars_of(b);
    if va.len() != vb.len() {
        return false;
    }
    let n = va.len();
    let mut i: usize = 0;
    while i < n
        invariant
            n == va@.len(),
            n == vb@.len(),
            va@ == a@,
            vb@ == b@,
            i <= n,
            forall|j: int| 0 <= j < i ==> a@[j] == b@[j],
        decreases n - i,
    {
        if va[i] != vb[i] {
            return false;
        }
        i = i + 1;
    }
    assert(a@ =~= b@);
    true
}


// ---------------------------------------------------------------------------
// Whitespace and trimming
// ---------------------------------------------------------------------------

/// Unicode `White_Space`, the property that `char::is_whitespace` and
/// `str::trim` go by.
pub open spec fn is_white_space(c: char) -> bool {
    ||| '\u{9}' <= c <= '\u{d}'
    ||| c == ' '
    ||| c == '\u{85}'
    ||| c == '\u{a0}'
    ||| c == '\u{1680}'
    ||| '\u{2000}' <= c <= '\u{200a}'
    ||| c == '\u{2028}'
    ||| c == '\u{2029}'
    ||| c == '\u{202f}'
    ||| c == '\u{205f}'
    ||| c == '\u{3000}'
}

pub fn is_white_space_char(c: char) -> (r: bool)
    ensures
        r == is_white_space(c),
{
    ('\u{9}' <= c && c <= '\u{d}') || c == ' ' || c == '\u{85}' || c == '\u{a0}' || c
        == '\u{1680}' || ('\u{2000}' <= c && c <= '\u{200a}') || c == '\u{2028}' || c
        == '\u{2029}' || c == '\u{202f}' || c == '\u{205f}' || c == '\u{3000}'
}

/// `s` without its leading whitespace.
pub open spec fn trim_start(s: Seq<char>) -> Seq<char>
    decreases s.len(),
{
    if s.len() > 0 && is_white_space(s[0]) {
        trim_start(s.drop_first())
    } else {
        s
    }
}

/// `s` without its trailing whitespace.
pub open spec fn trim_end(s: Seq<char>) -> Seq<char>
    decreases s.len(),
{
    if s.len() > 0 && is_white_space(s.last()) {
        trim_end(s.drop_last())
    } else {
        s
    }
}

/// `s` without leading and trailing whitespace (`str::trim`).
pub open spec fn trim(s: Seq<char>) -> Seq<char> {
    trim_end(trim_start(s))
}

/// The bounds, within `lo..hi`, of the trimmed text of `v[lo..hi]`.
pub fn trim_range(v: &Vec<char>, lo: usize, hi: usize) -> (r: (usize, usize))
    requires
        lo <= hi <= v@.len(),
    ensures
        lo <= r.0 <= r.1 <= hi,
        v@.subrange(r.0 as int, r.1 as int) == trim(v@.subrange(lo as int, hi as int)),
{
    let mut a = lo;
    while a < hi && is_white_space_char(v[a])
        invariant
            lo <= a <= hi <= v@.len(),
            trim_start(v@.subrange(lo as int, hi as int)) == trim_start(
                v@.subrange(a as int, hi as int),
            ),
        decreases hi - a,
    {
        assert(v@.subrange(a as int, hi as int).drop_first() =~= v@.subrange(
            a + 1,
            hi as int,
        ));
        a = a + 1;
    }
    let mut b = hi;
    while b > a && is_white_space_char(v[b - 1])
        invariant
            lo <= a <= b <= hi <= v@.len(),
            trim_start(v@.subrange(lo as int, hi as int)) == v@.subrange(a as int, hi as int),
            trim_end(v@.subrange(a as int, hi as int)) == trim_end(
                v@.subrange(a as int, b as int),
            ),
        decreases b - a,
    {
        assert(v@.subrange(a as int, b as int).drop_last() =~= v@.subrange(
            a as int,
            b - 1,
        ));
        b = b - 1;
    }
    (a, b)
}

// ---------------------------------------------------------------------------
// Splitting
// ---------------------------------------------------------------------------

/// Prepends `p` to the first piece of `r`.
pub open spec fn prepend_first(p: Seq<char>, r: Seq<Seq<char>>) -> Seq<Seq<char>> {
    r.update(0, p + r[0])
}

/// The pieces of `s` between the non-overlapping occurrences of `pat`,
/// found left to right (`str::split` with a string pattern).
pub open spec fn split_pat(s: Seq<char>, pat: Seq<char>) -> Seq<Seq<char>>
    decreases s.len(),
{
    if pat.len() == 0 || s.len() < pat.len() {
        seq![s]
    } else if s.subrange(0, pat.len() as int) == pat {
        seq![Seq::<char>::empty()] + split_pat(s.subrange(pat.len() as int, s.len() as int), pat)
    } else {
        prepend_first(seq![s[0]], split_pat(s.drop_first(), pat))
    }
}

pub proof fn lemma_split_pat_nonempty(s: Seq<char>, pat: Seq<char>)
    ensures
        split_pat(s, pat).len() >= 1,
    decreases s.len(),
{
    if pat.len() == 0 || s.len() < pat.len() {
    } else if s.subrange(0, pat.len() as int) == pat {
        lemma_split_pat_nonempty(s.subrange(pat.len() as int, s.len() as int), pat);
    } else {
        lemma_split_pat_nonempty(s.drop_first(), pat);
    }
}

/// The pieces of a range of `v`, as the ranges that hold them.
pub open spec fn range_pieces(v: Seq<char>, rs: Seq<(usize, usize)>) -> Seq<Seq<char>> {
    rs.map_values(|r: (usize, usize)| v.subrange(r.0 as int, r.1 as int))
}

/// Splits `v[lo..hi]` at the non-overlapping occurrences of `pat`, left to
/// right, and returns the bounds of the pieces.
pub fn split_range(v: &Vec<char>, lo: usize, hi: usize, pat: &Vec<char>) -> (rs: Vec<(usize, usize)>)
    requires
        lo <= hi <= v@.len(),
        pat@.len() > 0,
    ensures
        range_pieces(v@, rs@) == split_pat(v@.subrange(lo as int, hi as int), pat@),
        forall|k: int| 0 <= k < rs@.len() ==> lo <= #[trigger] rs@[k].0 <= rs@[k].1 <= hi,
{
    let m = pat.len();
    let mut rs: Vec<(usize, usize)> = Vec::new();
    let mut start = lo;
    let mut i = lo;
    proof {
        lemma_split_pat_nonempty(v@.subrange(lo as int, hi as int), pat@);
        let whole = split_pat(v@.subrange(lo as int, hi as int), pat@);
        assert(v@.subrange(lo as int, lo as int) =~= Seq::<char>::empty());
        assert(prepend_first(Seq::<char>::empty(), whole) =~= whole);
        assert(range_pieces(v@, rs@) =~= Seq::<Seq<char>>::empty());
        assert(range_pieces(v@, rs@) + whole =~= whole);
    }
    while i < hi && hi - i >= m
        invariant
            lo <= start <= i <= hi <= v@.len(),
            m == pat@.len(),
            m > 0,
            forall|k: int| 0 <= k < rs@.len() ==> lo <= #[trigger] rs@[k].0 <= rs@[k].1 <= start,
            split_pat(v@.subrange(lo as int, hi as int), pat@) == range_pieces(v@, rs@)
                + prepend_first(
                v@.subrange(start as int, i as int),
                split_pat(v@.subrange(i as int, hi as int), pat@),
            ),
        decreases hi - i,
    {
        let ghost rest = v@.subrange(i as int, hi as int);
        let mut j: usize = 0;
        let mut matched = true;
        while j < m
            invariant
                0 <= j <= m,
                m == pat@.len(),
                i + m <= hi <= v@.len(),
                rest == v@.subrange(i as int, hi as int),
                matched <==> (forall|k: int| 0 <= k < j ==> v@[i + k] == pat@[k]),
            decreases m - j,
        {
            if v[i + j] != pat[j] {
                matched = false;
            }
            j = j + 1;
        }
        proof {
            lemma_split_pat_nonempty(rest, pat@);
            if matched {
                assert(rest.subrange(0, m as int) =~= pat@);
            } else {
                assert(rest.subrange(0, m as int) != pat@) by {
                    let k = choose|k: int| 0 <= k < m && v@[i + k] != pat@[k];
                    assert(rest.subrange(0, m as int)[k] == v@[i + k]);
                }
            }
        }
        if matched {
            let ghost old_rs = rs@;
            rs.push((start, i));
            proof {
                assert(rest.subrange(m as int, rest.len() as int) =~= v@.subrange(
                    i + m,
                    hi as int,
                ));
                lemma_split_pat_nonempty(v@.subrange(i + m, hi as int), pat@);
                assert(range_pieces(v@, rs@) =~= range_pieces(v@, old_rs).push(
                    v@.subrange(start as int, i as int),
                ));
                assert(v@.subrange(i + m, i + m) =~= Seq::<char>::empty());
                let tail = split_pat(v@.subrange(i + m, hi as int), pat@);
                assert(prepend_first(v@.subrange(start as int, i as int), seq![Seq::<char>::empty()] + tail)
                    =~= seq![v@.subrange(start as int, i as int)] + tail);
                assert(prepend_first(v@.subrange((i + m) as int, (i + m) as int), tail) =~= tail);
                assert(range_pieces(v@, old_rs) + (seq![v@.subrange(start as int, i as int)] + tail)
                    =~= range_pieces(v@, rs@) + tail);
            }
            i = i + m;
            start = i;
        } else {
            proof {
                assert(rest.drop_first() =~= v@.subrange(i + 1, hi as int));
                let tail = split_pat(v@.subrange(i + 1, hi as int), pat@);
                lemma_split_pat_nonempty(v@.subrange(i + 1, hi as int), pat@);
                assert(v@.subrange(start as int, i + 1) =~= v@.subrange(start as int, i as int)
                    + seq![v@[i as int]]);
                assert(v@.subrange(start as int, i as int) + (seq![v@[i as int]] + tail[0])
                    =~= v@.subrange(start as int, i + 1) + tail[0]);
                assert(prepend_first(v@.subrange(start as int, i as int), prepend_first(seq![v@[i as int]], tail))
                    =~= prepend_first(v@.subrange(start as int, i + 1), tail));
            }
            i = i + 1;
        }
    }
    let ghost old_rs = rs@;
    rs.push((start, hi));
    proof {
        assert forall|k: int| 0 <= k < rs@.len() implies lo <= #[trigger] rs@[k].0 <= rs@[k].1
            <= hi by {
            if k < old_rs.len() {
                assert(rs@[k] == old_rs[k]);
            }
        }
        let rest = v@.subrange(i as int, hi as int);
        assert(split_pat(rest, pat@) == seq![rest]);
        assert(v@.subrange(start as int, hi as int) =~= v@.subrange(start as int, i as int)
            + rest);
        assert(prepend_first(v@.subrange(start as int, i as int), seq![rest]) =~= seq![
            v@.subrange(start as int, hi as int),
        ]);
        assert(range_pieces(v@, rs@) =~= range_pieces(v@, old_rs).push(
            v@.subrange(start as int, hi as int),
        ));
        assert(range_pieces(v@, rs@) =~= range_pieces(v@, old_rs) + seq![
            v@.subrange(start as int, hi as int),
        ]);
    }
    rs
}

/// The lines of `s` as `str::lines` yields them: split at `'\n'`, a final
/// line ending adding no empty line, and a `'\r'` before a `'\n'` removed.
pub open spec fn lines(s: Seq<char>) -> Seq<Seq<char>> {
    if s.len() == 0 {
        Seq::empty()
    } else {
        line_pieces(s).map(
            |k: int, l: Seq<char>|
                strip_cr_before_newline(split_pat(s, seq!['\n']).len() as int, k, l),
        )
    }
}

/// The pieces of `s` between its `'\n'`s, without the empty piece after a
/// final `'\n'`.
pub open spec fn line_pieces(s: Seq<char>) -> Seq<Seq<char>> {
    if s.len() > 0 && s.last() == '\n' {
        split_pat(s, seq!['\n']).drop_last()
    } else {
        split_pat(s, seq!['\n'])
    }
}

/// Line `k` of `pieces_len` pieces, without a `'\r'` that stood before the
/// `'\n'` ending it (the last piece ends with no `'\n'`).
pub open spec fn strip_cr_before_newline(pieces_len: int, k: int, l: Seq<char>) -> Seq<char> {
    if k < pieces_len - 1 && l.len() > 0 && l.last() == '\r' {
        l.drop_last()
    } else {
        l
    }
}


/// The bounds of the lines of `v` (see [`lines`]).
pub fn lines_ranges(v: &Vec<char>) -> (rs: Vec<(usize, usize)>)
    ensures
        range_pieces(v@, rs@) == lines(v@),
        forall|k: int| #![trigger rs@[k]] 0 <= k < rs@.len() ==> rs@[k].0 <= rs@[k].1 <= v@.len(),
{
    let n = v.len();
    let mut out: Vec<(usize, usize)> = Vec::new();
    if n == 0 {
        assert(range_pieces(v@, out@) =~= lines(v@));
        return out;
    }
    let nl = vec!['\n'];
    let pieces = split_range(v, 0, n, &nl);
    proof {
        assert(v@.subrange(0, n as int) =~= v@);
        lemma_split_pat_nonempty(v@, nl@);
    }
    let ends_with_newline = v[n - 1] == '\n';
    let body_len = if ends_with_newline {
        pieces.len() - 1
    } else {
        pieces.len()
    };
    let ghost ps = split_pat(v@, seq!['\n']);
    let ghost body = line_pieces(v@);
    assert(nl@ =~= seq!['\n']);
    let mut k: usize = 0;
    while k < body_len
        invariant
            k <= body_len,
            body_len == body.len(),
            body_len <= pieces@.len(),
            pieces@.len() == ps.len(),
            range_pieces(v@, pieces@) == ps,
            body == line_pieces(v@),
            ps == split_pat(v@, seq!['\n']),
            ends_with_newline == (v@.last() == '\n'),
            n == v@.len(),
            n > 0,
            forall|j: int| 0 <= j < pieces@.len() ==> 0 <= #[trigger] pieces@[j].0 <= pieces@[j].1 <= n,
            out@.len() == k,
            forall|j: int| 0 <= j < k ==> #[trigger] out@[j].0 <= out@[j].1 <= n,
            forall|j: int|
                0 <= j < k ==> v@.subrange(#[trigger] out@[j].0 as int, out@[j].1 as int)
                    == lines(v@)[j],
        decreases body_len - k,
    {
        let (a, b) = pieces[k];
        let ghost piece = v@.subrange(a as int, b as int);
        assert(range_pieces(v@, pieces@)[k as int] == piece);
        assert(piece == ps[k as int]);
        assert(piece == body[k as int]);
        assert(lines(v@)[k as int] == strip_cr_before_newline(ps.len() as int, k as int, piece));
        if k + 1 < pieces.len() && b > a && v[b - 1] == '\r' {
            out.push((a, b - 1));
            assert(v@.subrange(a as int, b - 1) =~= piece.drop_last());
        } else {
            out.push((a, b));
        }
        k = k + 1;
    }
    assert(range_pieces(v@, out@) =~= lines(v@));
    assert forall|j: int| #![trigger out@[j]] 0 <= j < out@.len() implies out@[j].0 <= out@[j].1
        <= v@.len() by {
        assert(out@[j].0 <= out@[j].1 <= n);
    }
    out
}

// ---------------------------------------------------------------------------
// Substrings
// ---------------------------------------------------------------------------

/// Whether `needle` occurs in `hay` (`str::contains` with a string pattern).
pub open spec fn contains_sub(hay: Seq<char>, needle: Seq<char>) -> bool {
    exists|i: int|
        0 <= i && i + needle.len() <= hay.len() && #[trigger] hay.subrange(i, i + needle.len())
            == needle
}

pub fn contains_chars(hay: &Vec<char>, needle: &Vec<char>) -> (r: bool)
    ensures
        r == contains_sub(hay@, needle@),
{
    let n = hay.len();
    let m = needle.len();
    if m > n {
        return false;
    }
    let mut i: usize = 0;
    while i <= n - m
        invariant
            m <= n,
            n == hay@.len(),
            m == needle@.len(),
            i <= n - m + 1,
            forall|k: int| 0 <= k < i ==> #[trigger] hay@.subrange(k, k + m) != needle@,
        decreases n - m + 1 - i,
    {
        let mut j: usize = 0;
        let mut same = true;
        while j < m
            invariant
                j <= m,
                i + m <= n,
                n == hay@.len(),
                m == needle@.len(),
                same <==> (forall|k: int| 0 <= k < j ==> hay@[i + k] == needle@[k]),
            decreases m - j,
        {
            if hay[i + j] != needle[j] {
                same = false;
            }
            j = j + 1;
        }
        if same {
            assert(hay@.subrange(i as int, i + m) =~= needle@);
            return true;
        }
        assert(hay@.subrange(i as int, i + m) != needle@) by {
            let k = choose|k: int| 0 <= k < m && hay@[i + k] != needle@[k];
            assert(hay@.subrange(i as int, i + m)[k] == hay@[i + k]);
        }
        i = i + 1;
    }
    false
}

// ---------------------------------------------------------------------------
// Decimal numbers
// ---------------------------------------------------------------------------

pub open spec fn is_ascii_digit(c: char) -> bool {
    '0' <= c <= '9'
}

pub open spec fn digit_value(c: char) -> nat {
    if c == '1' {
        1
    } else if c == '2' {
        2
    } else if c == '3' {
        3
    } else if c == '4' {
        4
    } else if c == '5' {
        5
    } else if c == '6' {
        6
    } else if c == '7' {
        7
    } else if c == '8' {
        8
    } else if c == '9' {
        9
    } else {
        0
    }
}

/// The number that a sequence of decimal digits denotes.
pub open spec fn decimal_value(d: Seq<char>) -> nat
    decreases d.len(),
{
    if d.len() == 0 {
        0
    } else {
        decimal_value(d.drop_last()) * 10 + digit_value(d.last())
    }
}

/// `s` without one leading `'+'`.
pub open spec fn unsigned_digits(s: Seq<char>) -> Seq<char> {
    if s.len() > 0 && s[0] == '+' {
        s.drop_first()
    } else {
        s
    }
}

/// What `s.parse::<u64>()` gives, as an `Option`: an optional `'+'`, then
/// one or more decimal digits whose value fits in a `u64`.
pub open spec fn parse_u64(s: Seq<char>) -> Option<u64> {
    let d = unsigned_digits(s);
    if d.len() > 0 && (forall|i: int| 0 <= i < d.len() ==> is_ascii_digit(#[trigger] d[i]))
        && decimal_value(d) <= u64::MAX {
        Some(decimal_value(d) as u64)
    } else {
        None
    }
}

proof fn lemma_decimal_value_monotone(d: Seq<char>, i: int, j: int)
    requires
        0 <= i <= j <= d.len(),
    ensures
        decimal_value(d.subrange(0, i)) <= decimal_value(d.subrange(0, j)),
    decreases j - i,
{
    if i < j {
        lemma_decimal_value_monotone(d, i, j - 1);
        assert(d.subrange(0, j).drop_last() =~= d.subrange(0, j - 1));
    }
}

fn digit_value_of(c: char) -> (r: u64)
    ensures
        r == digit_value(c),
{
    if c == '1' {
        1
    } else if c == '2' {
        2
    } else if c == '3' {
        3
    } else if c == '4' {
        4
    } else if c == '5' {
        5
    } else if c == '6' {
        6
    } else if c == '7' {
        7
    } else if c == '8' {
        8
    } else if c == '9' {
        9
    } else {
        0
    }
}

/// Parses `v[lo..hi]` as `str::parse::<u64>` does.
pub fn parse_u64_range(v: &Vec<char>, lo: usize, hi: usize) -> (r: Option<u64>)
    requires
        lo <= hi <= v@.len(),
    ensures
        r == parse_u64(v@.subrange(lo as int, hi as int)),
{
    let ghost s = v@.subrange(lo as int, hi as int);
    let mut start = lo;
    if lo < hi && v[lo] == '+' {
        start = lo + 1;
    }
    let ghost d = v@.subrange(start as int, hi as int);
    assert(d =~= unsigned_digits(s));
    if start == hi {
        return None;
    }
    let mut acc: u64 = 0;
    let mut i = start;
    while i < hi
        invariant
            start <= i <= hi <= v@.len(),
            d == v@.subrange(start as int, hi as int),
            d == unsigned_digits(s),
            s == v@.subrange(lo as int, hi as int),
            d.len() > 0,
            forall|k: int| 0 <= k < i - start ==> is_ascii_digit(#[trigger] d[k]),
            acc == decimal_value(d.subrange(0, i - start)),
        decreases hi - i,
    {
        let c = v[i];
        assert(d[i - start] == c);
        if !('0' <= c && c <= '9') {
            assert(!is_ascii_digit(d[i - start]));
            assert(!(forall|k: int| 0 <= k < d.len() ==> is_ascii_digit(#[trigger] d[k])));
            assert(parse_u64(s) is None);
            return None;
        }
        let dv = digit_value_of(c);
        proof {
            assert(d.subrange(0, i - start + 1).drop_last() =~= d.subrange(0, i - start));
            assert(d.subrange(0, i - start + 1).last() == c);
        }
        if acc > (u64::MAX - dv) / 10 {
            proof {
                assert(acc * 10 + dv > u64::MAX) by (nonlinear_arith)
                    requires
                        acc > (u64::MAX - dv) / 10,
                        dv <= 9,
                ;
                assert(decimal_value(d.subrange(0, i - start + 1)) == acc * 10 + dv);
                lemma_decimal_value_monotone(d, i - start + 1, d.len() as int);
                assert(d.subrange(0, d.len() as int) =~= d);
                assert(decimal_value(d) > u64::MAX);
                assert(parse_u64(s) is None);
            }
            return None;
        }
        proof {
            assert(acc * 10 + dv <= u64::MAX) by (nonlinear_arith)
                requires
                    acc <= (u64::MAX - dv) / 10,
                    dv <= 9,
            ;
        }
        acc = acc * 10 + dv;
        i = i + 1;
    }
    assert(d.subrange(0, d.len() as int) =~= d);
    Some(acc)
}


// ---------------------------------------------------------------------------
// Case folding
// ---------------------------------------------------------------------------

/// The text that `str::to_lowercase` of std returns for `s`.
pub uninterp spec fn lowercase(s: Seq<char>) -> Seq<char>;

/// `str::to_lowercase` of std. Trusted: the result is the lowercase form of
/// the argument under Unicode's `Lowercase` mapping, a function of the
/// argument's characters alone, named [`lowercase`]; nothing more of the
/// mapping is stated.
#[verifier::external_body]
pub(crate) fn to_lowercase(s: &str) -> (r: String)
    ensures
        r@ == lowercase(s@),
{
    s.to_lowercase()
}

/// Whether `s` is `"up"` ignoring ASCII case (`str::eq_ignore_ascii_case`
/// with `"up"`).
pub open spec fn is_up_ignoring_ascii_case(s: Seq<char>) -> bool {
    s.len() == 2 && (s[0] == 'u' || s[0] == 'U') && (s[1] == 'p' || s[1] == 'P')
}

pub fn range_is_up_ignoring_ascii_case(v: &Vec<char>, lo: usize, hi: usize) -> (r: bool)
    requires
        lo <= hi <= v@.len(),
    ensures
        r == is_up_ignoring_ascii_case(v@.subrange(lo as int, hi as int)),
{
    hi - lo == 2 && (v[lo] == 'u' || v[lo] == 'U') && (v[lo + 1] == 'p' || v[lo + 1] == 'P')
}


// ---------------------------------------------------------------------------
// Decimal text of numbers
// ---------------------------------------------------------------------------

pub open spec fn digit_char(d: nat) -> char {
    if d == 0 {
        '0'
    } else if d == 1 {
        '1'
    } else if d == 2 {
        '2'
    } else if d == 3 {
        '3'
    } else if d == 4 {
        '4'
    } else if d == 5 {
        '5'
    } else if d == 6 {
        '6'
    } else if d == 7 {
        '7'
    } else if d == 8 {
        '8'
    } else {
        '9'
    }
}

/// The decimal digits of `n`, as `{}` prints an unsigned integer.
pub open spec fn decimal_text(n: nat) -> Seq<char>
    decreases n,
{
    if n < 10 {
        seq![digit_char(n)]
    } else {
        decimal_text(n / 10).push(digit_char(n % 10))
    }
}

fn digit_str(d: u64) -> (s: &'static str)
    requires
        d < 10,
    ensures
        s@ == seq![digit_char(d as nat)],
{
    proof {
        reveal_strlit("0");
        reveal_strlit("1");
        reveal_strlit("2");
        reveal_strlit("3");
        reveal_strlit("4");
        reveal_strlit("5");
        reveal_strlit("6");
        reveal_strlit("7");
        reveal_strlit("8");
        reveal_strlit("9");
    }
    if d == 0 {
        "0"
    } else if d == 1 {
        "1"
    } else if d == 2 {
        "2"
    } else if d == 3 {
        "3"
    } else if d == 4 {
        "4"
    } else if d == 5 {
        "5"
    } else if d == 6 {
        "6"
    } else if d == 7 {
        "7"
    } else if d == 8 {
        "8"
    } else {
        "9"
    }
}

/// The decimal text of `n` (as `format!("{n}")` gives it).
pub fn u64_to_decimal(n: u64) -> (s: String)
    ensures
        s@ == decimal_text(n as nat),
    decreases n,
{
    if n < 10 {
        digit_str(n).to_owned()
    } else {
        let mut s = u64_to_decimal(n / 10);
        s.append(digit_str(n % 10));
        s
    }
}

} // verus!
