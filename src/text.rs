//! Character-level views of rule text: lines, comma-separated pieces and
//! trimming, stated as spec functions and computed on spans of a `Vec<char>`.

use vstd::prelude::*;
use vstd::std_specs::iter::IteratorSpec;

verus! {

/// Unicode's `White_Space` property, as `str::trim` uses it.
pub open spec fn is_white_space(c: char) -> bool {
    ('\u{9}' <= c && c <= '\u{d}') || c == ' ' || c == '\u{85}' || c == '\u{a0}' || c
        == '\u{1680}' || ('\u{2000}' <= c && c <= '\u{200a}') || c == '\u{2028}' || c
        == '\u{2029}' || c == '\u{202f}' || c == '\u{205f}' || c == '\u{3000}'
}

/// `s` without its leading white space.
pub open spec fn trim_start(s: Seq<char>) -> Seq<char>
    decreases s.len(),
{
    if s.len() > 0 && is_white_space(s[0]) {
        trim_start(s.drop_first())
    } else {
        s
    }
}

/// `s` without its trailing white space.
pub open spec fn trim_end(s: Seq<char>) -> Seq<char>
    decreases s.len(),
{
    if s.len() > 0 && is_white_space(s.last()) {
        trim_end(s.drop_last())
    } else {
        s
    }
}

/// `s` without white space at either end.
pub open spec fn trim(s: Seq<char>) -> Seq<char> {
    trim_end(trim_start(s))
}

/// The pieces of `s` between occurrences of `sep`; there is always at
/// least one, and `sep` occurs in none of them.
pub open spec fn split(s: Seq<char>, sep: char) -> Seq<Seq<char>>
    decreases s.len(),
{
    if s.len() == 0 {
        seq![Seq::empty()]
    } else {
        let rest = split(s.drop_first(), sep);
        if s[0] == sep {
            seq![Seq::empty()] + rest
        } else {
            rest.update(0, seq![s[0]] + rest[0])
        }
    }
}

/// One line without the `\r` of a `\r\n` ending.
pub open spec fn strip_cr(line: Seq<char>) -> Seq<char> {
    if line.len() > 0 && line.last() == '\r' {
        line.drop_last()
    } else {
        line
    }
}

/// The lines of `s` as `str::lines` gives them: split at `\n`, with no
/// empty line after a final `\n`, and a `\r` right before a `\n`
/// removed (a `\r` that ends the text stays).
pub open spec fn lines(s: Seq<char>) -> Seq<Seq<char>> {
    if s.len() == 0 {
        Seq::empty()
    } else {
        let parts = split(s, '\n');
        let ended = parts.drop_last().map_values(|l: Seq<char>| strip_cr(l));
        if s.last() == '\n' {
            ended
        } else {
            ended.push(parts.last())
        }
    }
}

/// The text of each span.
pub open spec fn spans_text(cs: Seq<char>, spans: Seq<(usize, usize)>) -> Seq<Seq<char>> {
    spans.map_values(|p: (usize, usize)| cs.subrange(p.0 as int, p.1 as int))
}

/// Every span lies within `lo..hi` of the text.
pub open spec fn spans_within(spans: Seq<(usize, usize)>, lo: int, hi: int) -> bool {
    forall|i: int|
        0 <= i < spans.len() ==> lo <= (#[trigger] spans[i]).0 <= spans[i].1 <= hi
}

proof fn lemma_split_piece(s: Seq<char>, sep: char, j: int)
    requires
        0 <= j < s.len(),
        s[j] == sep,
        forall|i: int| 0 <= i < j ==> s[i] != sep,
    ensures
        split(s, sep) == seq![s.take(j)] + split(s.skip(j + 1), sep),
    decreases j,
{
    if j == 0 {
        assert(s.skip(1) =~= s.drop_first());
        assert(s.take(0) =~= Seq::<char>::empty());
    } else {
        let t = s.drop_first();
        lemma_split_piece(t, sep, j - 1);
        assert(seq![s[0]] + t.take(j - 1) =~= s.take(j));
        assert(t.skip(j) =~= s.skip(j + 1));
        assert(split(s, sep) =~= seq![s.take(j)] + split(s.skip(j + 1), sep));
    }
}

proof fn lemma_split_none(s: Seq<char>, sep: char)
    requires
        forall|i: int| 0 <= i < s.len() ==> s[i] != sep,
    ensures
        split(s, sep) == seq![s],
    decreases s.len(),
{
    if s.len() == 0 {
        assert(s =~= Seq::<char>::empty());
    } else {
        let t = s.drop_first();
        lemma_split_none(t, sep);
        assert(seq![s[0]] + t =~= s);
        assert(split(s, sep) =~= seq![s]);
    }
}

/// The spans of the pieces of `cs[lo..hi]` between occurrences of `sep`.
pub fn split_spans(cs: &Vec<char>, lo: usize, hi: usize, sep: char) -> (r: Vec<(usize, usize)>)
    requires
        lo <= hi <= cs.len(),
    ensures
        spans_text(cs@, r@) == split(cs@.subrange(lo as int, hi as int), sep),
        spans_within(r@, lo as int, hi as int),
{
    let mut r: Vec<(usize, usize)> = Vec::new();
    let mut start = lo;
    let mut i = lo;
    while i < hi
        invariant
            lo <= start <= i <= hi <= cs.len(),
            spans_text(cs@, r@) + split(cs@.subrange(start as int, hi as int), sep) == split(
                cs@.subrange(lo as int, hi as int),
                sep,
            ),
            forall|k: int| start <= k < i ==> cs@[k] != sep,
            spans_within(r@, lo as int, hi as int),
        decreases hi - i,
    {
        if cs[i] == sep {
            let ghost rest = cs@.subrange(start as int, hi as int);
            proof {
                lemma_split_piece(rest, sep, i - start);
                assert(rest.take(i - start) =~= cs@.subrange(start as int, i as int));
                assert(rest.skip(i - start + 1) =~= cs@.subrange(i + 1, hi as int));
            }
            let ghost old_r = r@;
            r.push((start, i));
            assert(spans_text(cs@, r@) =~= spans_text(cs@, old_r).push(
                cs@.subrange(start as int, i as int),
            ));
            start = i + 1;
        }
        i = i + 1;
    }
    let ghost rest = cs@.subrange(start as int, hi as int);
    proof {
        lemma_split_none(rest, sep);
    }
    let ghost old_r = r@;
    r.push((start, hi));
    assert(spans_text(cs@, r@) =~= spans_text(cs@, old_r).push(rest));
    r
}

proof fn lemma_split_len(s: Seq<char>, sep: char)
    ensures
        split(s, sep).len() >= 1,
    decreases s.len(),
{
    if s.len() > 0 {
        lemma_split_len(s.drop_first(), sep);
    }
}

/// The spans of the lines of `cs`.
pub fn line_spans(cs: &Vec<char>) -> (r: Vec<(usize, usize)>)
    ensures
        spans_text(cs@, r@) == lines(cs@),
        spans_within(r@, 0, cs.len() as int),
{
    let n = cs.len();
    let mut r: Vec<(usize, usize)> = Vec::new();
    if n == 0 {
        assert(spans_text(cs@, r@) =~= lines(cs@));
        return r;
    }
    let parts = split_spans(cs, 0, n, '\n');
    assert(cs@.subrange(0, n as int) =~= cs@);
    proof {
        lemma_split_len(cs@, '\n');
    }
    let ghost all = split(cs@, '\n');
    let count = parts.len() - 1;
    for k in 0..count
        invariant
            count + 1 == parts.len(),
            all.len() == parts.len(),
            spans_text(cs@, parts@) == all,
            spans_within(parts@, 0, n as int),
            n == cs.len(),
            spans_text(cs@, r@) == all.take(k as int).map_values(|l: Seq<char>| strip_cr(l)),
            spans_within(r@, 0, n as int),
    {
        let (a, b) = parts[k];
        assert(all[k as int] == cs@.subrange(a as int, b as int));
        let ghost old_r = r@;
        if b > a && cs[b - 1] == '\r' {
            assert(cs@.subrange(a as int, b as int).drop_last() =~= cs@.subrange(
                a as int,
                b - 1,
            ));
            r.push((a, b - 1));
        } else {
            r.push((a, b));
        }
        assert(spans_text(cs@, r@) =~= spans_text(cs@, old_r).push(strip_cr(all[k as int])));
        assert(all.take(k + 1).map_values(|l: Seq<char>| strip_cr(l)) =~= all.take(
            k as int,
        ).map_values(|l: Seq<char>| strip_cr(l)).push(strip_cr(all[k as int])));
    }
    assert(all.take(count as int) =~= all.drop_last());
    if cs[n - 1] != '\n' {
        let ghost old_r = r@;
        let last = parts[count];
        r.push(last);
        assert(all.last() == cs@.subrange(last.0 as int, last.1 as int));
        assert(spans_text(cs@, r@) =~= spans_text(cs@, old_r).push(all.last()));
    }
    r
}

/// Where the first `..` in `e` starts, looking from `from` on.
pub open spec fn find_dots(e: Seq<char>, from: int) -> Option<int>
    decreases e.len() - from,
{
    if from < 0 || from + 1 >= e.len() {
        None
    } else if e[from] == '.' && e[from + 1] == '.' {
        Some(from)
    } else {
        find_dots(e, from + 1)
    }
}

/// Where the first `..` in `cs[lo..hi]` starts, as an index into `cs`.
pub fn dots_in(cs: &Vec<char>, lo: usize, hi: usize) -> (r: Option<usize>)
    requires
        lo <= hi <= cs.len(),
    ensures
        match r {
            Some(i) => {
                &&& lo <= i
                &&& i + 2 <= hi
                &&& find_dots(cs@.subrange(lo as int, hi as int), 0) == Some(i - lo)
            },
            None => find_dots(cs@.subrange(lo as int, hi as int), 0) is None,
        },
{
    let ghost e = cs@.subrange(lo as int, hi as int);
    let mut i = lo;
    while i < hi && i + 1 < hi
        invariant
            lo <= i <= hi <= cs.len(),
            e == cs@.subrange(lo as int, hi as int),
            find_dots(e, 0) == find_dots(e, i - lo),
        decreases hi - i,
    {
        if cs[i] == '.' && cs[i + 1] == '.' {
            return Some(i);
        }
        i = i + 1;
    }
    None
}

/// Is `c` white space?
pub fn white_space(c: char) -> (r: bool)
    ensures
        r == is_white_space(c),
{
    ('\u{9}' <= c && c <= '\u{d}') || c == ' ' || c == '\u{85}' || c == '\u{a0}' || c
        == '\u{1680}' || ('\u{2000}' <= c && c <= '\u{200a}') || c == '\u{2028}' || c
        == '\u{2029}' || c == '\u{202f}' || c == '\u{205f}' || c == '\u{3000}'
}

/// The span of `cs[lo..hi]` once trimmed.
pub fn trim_span(cs: &Vec<char>, lo: usize, hi: usize) -> (r: (usize, usize))
    requires
        lo <= hi <= cs.len(),
    ensures
        lo <= r.0 <= r.1 <= hi,
        cs@.subrange(r.0 as int, r.1 as int) == trim(cs@.subrange(lo as int, hi as int)),
{
    let mut a = lo;
    while a < hi && white_space(cs[a])
        invariant
            lo <= a <= hi <= cs.len(),
            trim_start(cs@.subrange(lo as int, hi as int)) == trim_start(
                cs@.subrange(a as int, hi as int),
            ),
        decreases hi - a,
    {
        assert(cs@.subrange(a as int, hi as int).drop_first() =~= cs@.subrange(
            a + 1,
            hi as int,
        ));
        a = a + 1;
    }
    assert(trim_start(cs@.subrange(a as int, hi as int)) == cs@.subrange(a as int, hi as int));
    let mut b = hi;
    while b > a && white_space(cs[b - 1])
        invariant
            lo <= a <= b <= hi <= cs.len(),
            trim_end(cs@.subrange(a as int, hi as int)) == trim_end(
                cs@.subrange(a as int, b as int),
            ),
        decreases b - a,
    {
        assert(cs@.subrange(a as int, b as int).drop_last() =~= cs@.subrange(
            a as int,
            b - 1,
        ));
        b = b - 1;
    }
    (a, b)
}

/// The characters of `s`, one by one.
pub fn chars_of(s: &str) -> (r: Vec<char>)
    ensures
        r@ == s@,
{
    let mut r: Vec<char> = Vec::new();
    for c in it: s.chars()
        invariant
            r@ == it.seq().take(it.index() as int),
            it.seq() == s@,
    {
        r.push(c);
    }
    r
}

} // verus!
