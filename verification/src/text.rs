//! Character-level helpers: decoding a string into its chars, whitespace, and words.

use vstd::prelude::*;

verus! {

broadcast use vstd::string::group_string_axioms;

/// The chars of a string, in order.
pub fn chars_of(s: &str) -> (r: Vec<char>)
    ensures
        r@ == s@,
{
    let mut r: Vec<char> = Vec::new();
    for c in it: s.chars()
        invariant
            r@ == it.seq().take(it.index()),
    {
        r.push(c);
    }
    r
}

/// Unicode `White_Space`, the property that `char::is_whitespace` tests.
pub open spec fn is_whitespace_char(c: char) -> bool {
    let u = c as u32;
    ||| 0x9 <= u <= 0xd
    ||| u == 0x20
    ||| u == 0x85
    ||| u == 0xa0
    ||| u == 0x1680
    ||| 0x2000 <= u <= 0x200a
    ||| u == 0x2028
    ||| u == 0x2029
    ||| u == 0x202f
    ||| u == 0x205f
    ||| u == 0x3000
}

/// Whether `c` is a Unicode white-space character.
pub fn is_whitespace(c: char) -> (r: bool)
    ensures
        r == is_whitespace_char(c),
{
    let u = c as u32;
    (0x9 <= u && u <= 0xd) || u == 0x20 || u == 0x85 || u == 0xa0 || u == 0x1680 || (0x2000 <= u
        && u <= 0x200a) || u == 0x2028 || u == 0x2029 || u == 0x202f || u == 0x205f || u == 0x3000
}

/// The words of `s` (maximal runs of non-white-space chars), as half-open index ranges,
/// found by scanning from index `i` with a word in progress since `start` (none if `start == i`).
pub open spec fn spans_from(s: Seq<char>, i: int, start: int) -> Seq<(int, int)>
    decreases s.len() - i,
{
    if i >= s.len() {
        if start < i {
            seq![(start, i)]
        } else {
            seq![]
        }
    } else if is_whitespace_char(s[i]) {
        let rest = spans_from(s, i + 1, i + 1);
        if start < i {
            seq![(start, i)] + rest
        } else {
            rest
        }
    } else {
        spans_from(s, i + 1, start)
    }
}

/// The index ranges of the words of `s`, in order: what `str::split_whitespace` yields.
pub open spec fn word_spans(s: Seq<char>) -> Seq<(int, int)> {
    spans_from(s, 0, 0)
}

/// The words of `s`, in order.
pub open spec fn words_of(s: Seq<char>) -> Seq<Seq<char>> {
    word_spans(s).map_values(|p: (int, int)| s.subrange(p.0, p.1))
}

/// Where the white space before word `k` begins: the end of the previous word, or 0.
pub open spec fn gap_start(sp: Seq<(int, int)>, k: int) -> int {
    if k == 0 {
        0
    } else {
        sp[k - 1].1
    }
}

/// The facts about word ranges that the layout code relies on: each range is non-empty,
/// in bounds and free of white space, ranges are ordered and apart, and only white space
/// stands before and between them.
pub open spec fn spans_well_formed(s: Seq<char>, sp: Seq<(int, int)>) -> bool {
    &&& forall|k: int| 0 <= k < sp.len() ==> 0 <= #[trigger] sp[k].0 < sp[k].1 <= s.len()
    &&& forall|k: int, m: int| 0 <= k < m < sp.len() ==> #[trigger] sp[k].1 < #[trigger] sp[m].0
    &&& forall|k: int, j: int|
        #![trigger sp[k], s[j]]
        0 <= k < sp.len() && sp[k].0 <= j < sp[k].1 ==> !is_whitespace_char(s[j])
    &&& forall|k: int, j: int|
        #![trigger sp[k], s[j]]
        0 <= k < sp.len() && gap_start(sp, k) <= j < sp[k].0 ==> is_whitespace_char(s[j])
}

pub open spec fn span_to_int(p: (usize, usize)) -> (int, int) {
    (p.0 as int, p.1 as int)
}

/// Splits `chars` into its words, given as index ranges.
pub fn word_spans_of(chars: &Vec<char>) -> (r: Vec<(usize, usize)>)
    ensures
        r@.map_values(|p: (usize, usize)| span_to_int(p)) == word_spans(chars@),
        spans_well_formed(chars@, r@.map_values(|p: (usize, usize)| span_to_int(p))),
{
    let ghost s = chars@;
    let mut r: Vec<(usize, usize)> = Vec::new();
    let mut start: usize = 0;
    let mut i: usize = 0;
    while i < chars.len()
        invariant
            s == chars@,
            start <= i <= chars.len(),
            r@.map_values(|p: (usize, usize)| span_to_int(p)) + spans_from(s, i as int, start as int)
                == word_spans(s),
            spans_well_formed(s, r@.map_values(|p: (usize, usize)| span_to_int(p))),
            forall|k: int| 0 <= k < r@.len() ==> #[trigger] r@[k].1 < start,
            forall|j: int| start <= j < i ==> !is_whitespace_char(#[trigger] s[j]),
            forall|j: int|
                gap_start(r@.map_values(|p: (usize, usize)| span_to_int(p)), r@.len() as int) <= j
                    < start ==> is_whitespace_char(#[trigger] s[j]),
            r@.len() > 0 ==> r@[r@.len() - 1].1 <= start,
        decreases chars.len() - i,
    {
        let ghost old_r = r@.map_values(|p: (usize, usize)| span_to_int(p));
        if is_whitespace(chars[i]) {
            if start < i {
                r.push((start, i));
                let ghost new_r = r@.map_values(|p: (usize, usize)| span_to_int(p));
                assert(new_r =~= old_r.push((start as int, i as int)));
                assert(new_r + spans_from(s, i + 1, i + 1) =~= old_r + spans_from(
                    s,
                    i as int,
                    start as int,
                ));
            } else {
                assert(spans_from(s, i as int, start as int) == spans_from(s, i + 1, i + 1));
            }
            start = i + 1;
        } else {
            assert(spans_from(s, i as int, start as int) == spans_from(s, i + 1, start as int));
        }
        i += 1;
    }
    let ghost old_r = r@.map_values(|p: (usize, usize)| span_to_int(p));
    if start < i {
        r.push((start, i));
        let ghost new_r = r@.map_values(|p: (usize, usize)| span_to_int(p));
        assert(new_r =~= old_r.push((start as int, i as int)));
        assert(new_r =~= old_r + spans_from(s, i as int, start as int));
    } else {
        assert(old_r =~= old_r + spans_from(s, i as int, start as int));
    }
    r
}

/// Every word range found from a scan position is non-empty.
pub proof fn lemma_spans_from_nonempty(s: Seq<char>, i: int, start: int)
    requires
        0 <= start <= i,
    ensures
        forall|k: int|
            0 <= k < spans_from(s, i, start).len() ==> #[trigger] spans_from(s, i, start)[k].0
                < spans_from(s, i, start)[k].1,
    decreases s.len() - i,
{
    if i < s.len() {
        if is_whitespace_char(s[i]) {
            lemma_spans_from_nonempty(s, i + 1, i + 1);
            let rest = spans_from(s, i + 1, i + 1);
            if start >= i {
                assert(spans_from(s, i, start) == rest);
            } else {
                assert forall|k: int|
                    0 <= k < spans_from(s, i, start).len() implies #[trigger] spans_from(
                    s,
                    i,
                    start,
                )[k].0 < spans_from(s, i, start)[k].1 by {
                    if k > 0 {
                        assert(spans_from(s, i, start)[k] == rest[k - 1]);
                    }
                }
            }
        } else {
            lemma_spans_from_nonempty(s, i + 1, start);
            assert(spans_from(s, i, start) == spans_from(s, i + 1, start));
        }
    } else if start < i {
        assert(spans_from(s, i, start) == seq![(start, i)]);
    } else {
        assert(spans_from(s, i, start) == Seq::<(int, int)>::empty());
    }
}

/// Words are never empty.
pub proof fn lemma_word_spans_nonempty(s: Seq<char>)
    ensures
        forall|k: int| 0 <= k < word_spans(s).len() ==> #[trigger] word_spans(s)[k].0 < word_spans(s)[k].1,
{
    lemma_spans_from_nonempty(s, 0, 0);
}

/// Word ranges found from a scan position lie after the scan's start and are apart.
pub proof fn lemma_spans_from_ordered(s: Seq<char>, i: int, start: int)
    requires
        0 <= start <= i <= s.len(),
    ensures
        forall|k: int|
            0 <= k < spans_from(s, i, start).len() ==> start <= #[trigger] spans_from(s, i, start)[k].0
                && spans_from(s, i, start)[k].1 <= s.len(),
        forall|j: int, k: int|
            0 <= j < k < spans_from(s, i, start).len() ==> #[trigger] spans_from(s, i, start)[j].1
                < #[trigger] spans_from(s, i, start)[k].0,
    decreases s.len() - i,
{
    let sp = spans_from(s, i, start);
    if i < s.len() {
        if is_whitespace_char(s[i]) {
            lemma_spans_from_ordered(s, i + 1, i + 1);
            let rest = spans_from(s, i + 1, i + 1);
            if start >= i {
                assert(sp == rest);
            } else {
                assert(sp == seq![(start, i)] + rest);
                assert forall|k: int| 0 < k < sp.len() implies sp[k] == rest[k - 1] by {}
            }
        } else {
            lemma_spans_from_ordered(s, i + 1, start);
            assert(sp == spans_from(s, i + 1, start));
        }
    } else if start < i {
        assert(sp == seq![(start, i)]);
    } else {
        assert(sp == Seq::<(int, int)>::empty());
    }
}

/// Words lie within the text, in order and apart.
pub proof fn lemma_word_spans_ordered(s: Seq<char>)
    ensures
        forall|k: int|
            0 <= k < word_spans(s).len() ==> 0 <= #[trigger] word_spans(s)[k].0 < word_spans(s)[k].1
                <= s.len(),
        forall|j: int, k: int|
            0 <= j < k < word_spans(s).len() ==> #[trigger] word_spans(s)[j].1 < #[trigger] word_spans(
                s,
            )[k].0,
{
    lemma_spans_from_ordered(s, 0, 0);
    lemma_spans_from_nonempty(s, 0, 0);
}

/// `l` without one trailing carriage return.
pub open spec fn strip_cr(l: Seq<char>) -> Seq<char> {
    if l.len() > 0 && l.last() == '\r' {
        l.drop_last()
    } else {
        l
    }
}

/// The lines of `s` found by scanning from `i`, the current line having begun at `start`:
/// lines end at `\n`, a `\r` right before the `\n` is dropped, and a final line ending is
/// optional (what `str::lines` yields).
pub open spec fn lines_from(s: Seq<char>, i: int, start: int) -> Seq<Seq<char>>
    decreases s.len() - i,
{
    if i >= s.len() {
        if start < s.len() {
            seq![s.subrange(start, s.len() as int)]
        } else {
            seq![]
        }
    } else if s[i] == '\n' {
        seq![strip_cr(s.subrange(start, i))] + lines_from(s, i + 1, i + 1)
    } else {
        lines_from(s, i + 1, start)
    }
}

/// The lines of `s`.
pub open spec fn lines_of(s: Seq<char>) -> Seq<Seq<char>> {
    lines_from(s, 0, 0)
}

/// The char count of each line of `text`.
pub fn line_lengths(text: &str) -> (r: Vec<usize>)
    ensures
        r@.map_values(|n: usize| n as int) == lines_of(text@).map_values(|l: Seq<char>| l.len() as int),
{
    let chars = chars_of(text);
    let ghost s = text@;
    let mut r: Vec<usize> = Vec::new();
    let mut start: usize = 0;
    let mut i: usize = 0;
    while i < chars.len()
        invariant
            chars@ == s,
            start <= i <= chars@.len(),
            r@.map_values(|n: usize| n as int) + lines_from(s, i as int, start as int).map_values(
                |l: Seq<char>| l.len() as int,
            ) == lines_of(s).map_values(|l: Seq<char>| l.len() as int),
        decreases chars.len() - i,
    {
        let ghost old_r = r@.map_values(|n: usize| n as int);
        if chars[i] == '\n' {
            let len = if i > start && chars[i - 1] == '\r' {
                i - start - 1
            } else {
                i - start
            };
            let ghost line = s.subrange(start as int, i as int);
            assert(strip_cr(line).len() == len);
            r.push(len);
            let ghost rest = lines_from(s, i + 1, i + 1);
            assert(lines_from(s, i as int, start as int) == seq![strip_cr(line)] + rest);
            assert(r@.map_values(|n: usize| n as int) =~= old_r.push(len as int));
            assert((seq![strip_cr(line)] + rest).map_values(|l: Seq<char>| l.len() as int)
                =~= seq![len as int] + rest.map_values(|l: Seq<char>| l.len() as int));
            assert(r@.map_values(|n: usize| n as int) + rest.map_values(|l: Seq<char>| l.len() as int)
                =~= old_r + (seq![strip_cr(line)] + rest).map_values(|l: Seq<char>| l.len() as int));
            start = i + 1;
        } else {
            assert(lines_from(s, i as int, start as int) == lines_from(s, i + 1, start as int));
        }
        i += 1;
    }
    let ghost old_r = r@.map_values(|n: usize| n as int);
    if start < chars.len() {
        r.push(chars.len() - start);
        assert(lines_from(s, i as int, start as int) == seq![s.subrange(start as int, s.len() as int)]);
        assert(r@.map_values(|n: usize| n as int) =~= old_r + lines_from(s, i as int, start as int).map_values(
            |l: Seq<char>| l.len() as int,
        ));
    } else {
        assert(lines_from(s, i as int, start as int) == Seq::<Seq<char>>::empty());
        assert(old_r =~= old_r + lines_from(s, i as int, start as int).map_values(
            |l: Seq<char>| l.len() as int,
        ));
    }
    r
}

} // verus!
