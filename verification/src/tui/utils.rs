//! Text wrapping, padding and cursor placement for the typing area.

use vstd::prelude::*;
use vstd::utf8::encode_utf8;
use crate::geometry::{split_area, Constraint, Direction, Padding, Rect};
use crate::text::{chars_of, span_to_int, word_spans, word_spans_of, words_of};

verus! {

/// The UTF-8 byte count of `s`, as the `u16` it is converted to.
pub open spec fn byte_len16(s: Seq<char>) -> int {
    ((encode_utf8(s).len() as usize) as u16) as int
}

/// One step of greedy wrapping: the word joins the current line (after a space) while the
/// line's byte length stays within `width`; otherwise the current line is finished and the
/// word starts the next one, or, when there is no current line, stands on a line of its own.
pub open spec fn wrap_step(
    st: (Seq<Seq<char>>, Seq<char>),
    word: Seq<char>,
    width: int,
) -> (Seq<Seq<char>>, Seq<char>) {
    let (lines, cur) = st;
    let potential = if cur.len() == 0 {
        word
    } else {
        cur + seq![' '] + word
    };
    if byte_len16(potential) > width {
        if cur.len() != 0 {
            (lines.push(cur), word)
        } else {
            (lines.push(word), cur)
        }
    } else {
        (lines, potential)
    }
}

/// Finished lines and current line after wrapping the given words.
pub open spec fn wrap_state(words: Seq<Seq<char>>, width: int) -> (Seq<Seq<char>>, Seq<char>)
    decreases words.len(),
{
    if words.len() == 0 {
        (seq![], seq![])
    } else {
        wrap_step(wrap_state(words.drop_last(), width), words.last(), width)
    }
}

/// The lines that `text` wraps into at `width` bytes.
pub open spec fn wrap_text_spec(text: Seq<char>, width: int) -> Seq<Seq<char>> {
    let (lines, cur) = wrap_state(words_of(text), width);
    if cur.len() != 0 {
        lines.push(cur)
    } else {
        lines
    }
}

/// Wraps the words of `text` greedily into lines of at most `max_width` bytes; a longer
/// word stands alone on its line.
pub fn wrap_text(text: &str, max_width: u16) -> (r: Vec<String>)
    ensures
        r@.map_values(|l: String| l@) == wrap_text_spec(text@, max_width as int),
{
    let chars = chars_of(text);
    let spans = word_spans_of(&chars);
    let ghost sp = spans@.map_values(|p: (usize, usize)| span_to_int(p));
    let ghost words = words_of(text@);
    let ghost w = max_width as int;
    assert(words.len() == sp.len());
    let mut lines: Vec<String> = Vec::new();
    let mut current_line = String::new();
    let mut k: usize = 0;
    while k < spans.len()
        invariant
            chars@ == text@,
            sp == spans@.map_values(|p: (usize, usize)| span_to_int(p)),
            sp == word_spans(text@),
            words == words_of(text@),
            words.len() == sp.len(),
            w == max_width as int,
            k <= spans.len(),
            forall|j: int| 0 <= j < sp.len() ==> 0 <= #[trigger] sp[j].0 < sp[j].1 <= text@.len(),
            (lines@.map_values(|l: String| l@), current_line@) == wrap_state(
                words.take(k as int),
                w,
            ),
        decreases spans.len() - k,
    {
        let (s, e) = spans[k];
        assert(sp[k as int] == (s as int, e as int));
        let word = text.substring_char(s, e);
        assert(word@ == words[k as int]);
        assert(words.take(k + 1).drop_last() =~= words.take(k as int));
        let ghost old_lines = lines@.map_values(|l: String| l@);
        let ghost old_cur = current_line@;
        proof {
            reveal_strlit(" ");
        }
        let potential = if current_line.as_str().is_empty() {
            word.to_owned()
        } else {
            let mut p = current_line.clone();
            p.append(" ");
            p.append(word);
            p
        };
        assert(potential@ =~= (if old_cur.len() == 0 {
            word@
        } else {
            old_cur + seq![' '] + word@
        }));
        if potential.as_str().len() as u16 > max_width {
            if !current_line.as_str().is_empty() {
                lines.push(current_line);
                current_line = word.to_owned();
                assert(lines@.map_values(|l: String| l@) =~= old_lines.push(old_cur));
            } else {
                lines.push(word.to_owned());
                assert(lines@.map_values(|l: String| l@) =~= old_lines.push(word@));
            }
        } else {
            current_line = potential;
        }
        k += 1;
    }
    assert(words.take(k as int) =~= words);
    let ghost old_lines = lines@.map_values(|l: String| l@);
    if !current_line.as_str().is_empty() {
        let ghost cur = current_line@;
        lines.push(current_line);
        assert(lines@.map_values(|l: String| l@) =~= old_lines.push(cur));
    }
    lines
}

/// The padding of the title: eight columns from the left, two rows from the top.
pub fn title_padding() -> (r: Padding)
    ensures
        r == (Padding { left: 8, right: 0, top: 2, bottom: 0 }),
{
    Padding { left: 8, right: 0, top: 2, bottom: 0 }
}

/// The padding of the mode line: six rows from the top.
pub fn mode_line_padding() -> (r: Padding)
    ensures
        r == (Padding { left: 0, right: 0, top: 6, bottom: 0 }),
{
    Padding { left: 0, right: 0, top: 6, bottom: 0 }
}

/// The padding of the footer: one column from the right.
pub fn footer_padding() -> (r: Padding)
    ensures
        r == (Padding { left: 0, right: 1, top: 0, bottom: 0 }),
{
    Padding { left: 0, right: 1, top: 0, bottom: 0 }
}

/// The padding of menu items: one column from the right.
pub fn menu_items_padding() -> (r: Padding)
    ensures
        r == (Padding { left: 0, right: 1, top: 0, bottom: 0 }),
{
    Padding { left: 0, right: 1, top: 0, bottom: 0 }
}

/// Rows above `num_lines` lines to center them in `height` rows.
pub fn calculate_padding<T>(lines: &[T], height: u16) -> (r: usize)
    ensures
        r == (if lines@.len() < height {
            (height - lines@.len()) / 2
        } else {
            0
        }),
{
    let num_lines = lines.len();
    let height = height as usize;
    if num_lines < height {
        (height - num_lines) / 2
    } else {
        0
    }
}

/// The widest of the lines, in chars (each taken as a `u16`); 0 without lines.
pub open spec fn max_line_width_spec(lines: Seq<Seq<char>>) -> int
    decreases lines.len(),
{
    if lines.len() == 0 {
        0
    } else {
        let rest = max_line_width_spec(lines.drop_last());
        let last = (lines.last().len() as u16) as int;
        if last > rest {
            last
        } else {
            rest
        }
    }
}

/// The width of the widest line, in chars.
pub fn max_line_width(lines: &[String]) -> (r: u16)
    ensures
        r == max_line_width_spec(lines@.map_values(|l: String| l@)),
{
    let ghost all = lines@.map_values(|l: String| l@);
    let mut best: u16 = 0;
    let mut i: usize = 0;
    while i < lines.len()
        invariant
            all == lines@.map_values(|l: String| l@),
            i <= lines@.len(),
            best == max_line_width_spec(all.take(i as int)),
        decreases lines.len() - i,
    {
        let width = chars_of(lines[i].as_str()).len() as u16;
        assert(all.take(i + 1).drop_last() =~= all.take(i as int));
        if width > best {
            best = width;
        }
        i += 1;
    }
    assert(all.take(i as int) =~= all);
    best
}

/// The middle part of `area`, at most `target_width` wide.
pub fn horizontally_center(area: Rect, target_width: u16) -> (r: Rect)
    requires
        area.x + (area.width - (if target_width < area.width { target_width } else { area.width }))
            / 2 <= u16::MAX,
    ensures
        r.width == (if target_width < area.width { target_width } else { area.width }),
        r.x == area.x + (area.width - r.width) / 2,
        r.y == area.y,
        r.height == area.height,
{
    let width = if target_width < area.width {
        target_width
    } else {
        area.width
    };
    let x = area.x + (area.width - width) / 2;
    Rect { x, y: area.y, width, height: area.height }
}

/// Left and right padding that center content `content_width` wide in `total_width`.
pub fn calculate_horizontal_padding(content_width: u16, total_width: u16) -> (r: (u16, u16))
    ensures
        total_width >= content_width ==> r.0 == (total_width - content_width) / 2 && r.1
            == total_width - content_width - r.0,
        total_width < content_width ==> r == (0u16, 0u16),
{
    let left_pad = total_width.saturating_sub(content_width) / 2;
    let right_pad = total_width.saturating_sub(content_width + left_pad);
    (left_pad, right_pad)
}

/// `lines` between empty lines that fill `height` rows, the extra row (if any) below.
pub open spec fn vertically_centered(lines: Seq<Seq<char>>, height: int) -> Seq<Seq<char>> {
    let n = lines.len() as int;
    let top = if n < height { (height - n) / 2 } else { 0 };
    let bottom = if height - n - top > 0 { height - n - top } else { 0 };
    Seq::new(top as nat, |i: int| Seq::<char>::empty()) + lines + Seq::new(
        bottom as nat,
        |i: int| Seq::<char>::empty(),
    )
}

/// `lines` with empty lines added above and below to fill `height` rows, centered.
pub fn center_lines_vertically(lines: Vec<String>, height: u16) -> (r: Vec<String>)
    ensures
        r@.map_values(|l: String| l@) == vertically_centered(
            lines@.map_values(|l: String| l@),
            height as int,
        ),
{
    let padding_top = calculate_padding(lines.as_slice(), height);
    let padding_bottom = (height as usize).saturating_sub(lines.len()).saturating_sub(padding_top);
    let ghost n = lines@.len() as int;
    let ghost src = lines@;
    let mut result: Vec<String> = Vec::with_capacity(height as usize);
    let mut i: usize = 0;
    while i < padding_top
        invariant
            result@.len() == i,
            i <= padding_top,
            forall|j: int| 0 <= j < i ==> (#[trigger] result@[j])@.len() == 0,
        decreases padding_top - i,
    {
        let ghost before = result@;
        result.push(String::new());
        assert(forall|q: int| 0 <= q < before.len() ==> result@[q] == before[q]);
        i += 1;
    }
    let mut rest = lines;
    let mut j: usize = 0;
    let total = rest.len();
    while j < total
        invariant
            total == n,
            src.len() == n,
            rest@ == src,
            result@.len() == padding_top + j,
            j <= total,
            forall|q: int| 0 <= q < padding_top ==> (#[trigger] result@[q])@.len() == 0,
            forall|q: int| 0 <= q < j ==> (#[trigger] result@[padding_top + q])@ == src[q]@,
        decreases total - j,
    {
        let ghost before = result@;
        result.push(rest[j].clone());
        assert(forall|q: int| 0 <= q < before.len() ==> result@[q] == before[q]);
        j += 1;
    }
    let mut b: usize = 0;
    while b < padding_bottom
        invariant
            n >= 0,
            result@.len() == padding_top + n + b,
            b <= padding_bottom,
            forall|q: int| 0 <= q < padding_top ==> (#[trigger] result@[q])@.len() == 0,
            forall|q: int| 0 <= q < n ==> (#[trigger] result@[padding_top + q])@ == src[q]@,
            forall|q: int|
                padding_top + n <= q < padding_top + n + b ==> (#[trigger] result@[q])@.len() == 0,
        decreases padding_bottom - b,
    {
        let ghost before = result@;
        result.push(String::new());
        assert forall|q: int| 0 <= q < padding_top implies (#[trigger] result@[q])@.len() == 0 by {
            assert(result@[q] == before[q]);
        }
        assert forall|q: int| 0 <= q < n implies (#[trigger] result@[padding_top + q])@ == src[q]@ by {
            assert(result@[padding_top + q] == before[padding_top + q]);
        }
        assert forall|q: int|
            padding_top + n <= q < padding_top + n + b + 1 implies (#[trigger] result@[q])@.len() == 0 by {
            if q < padding_top + n + b {
                assert(result@[q] == before[q]);
            }
        }
        b += 1;
    }
    proof {
        let got = result@.map_values(|l: String| l@);
        let want = vertically_centered(src.map_values(|l: String| l@), height as int);
        assert(got.len() == want.len());
        assert forall|i: int| 0 <= i < got.len() implies got[i] == want[i] by {
            if i < padding_top {
                assert(result@[i]@.len() == 0);
            } else if i < padding_top + n {
                let k = i - padding_top;
                assert(result@[padding_top + k]@ == src[k]@);
            } else {
                assert(result@[i]@.len() == 0);
            }
        }
        assert(got =~= want);
    }
    result
}

/// The pieces joined with single spaces.
pub open spec fn join_spaced(pieces: Seq<Seq<char>>) -> Seq<char>
    decreases pieces.len(),
{
    if pieces.len() == 0 {
        seq![]
    } else if pieces.len() == 1 {
        pieces[0]
    } else {
        join_spaced(pieces.drop_last()) + seq![' '] + pieces.last()
    }
}

/// Finished lines followed by the current line, when there is one.
pub open spec fn all_lines(st: (Seq<Seq<char>>, Seq<char>)) -> Seq<Seq<char>> {
    if st.1.len() != 0 {
        st.0.push(st.1)
    } else {
        st.0
    }
}

proof fn lemma_join_push(xs: Seq<Seq<char>>, y: Seq<char>)
    ensures
        join_spaced(xs.push(y)) == (if xs.len() == 0 {
            y
        } else {
            join_spaced(xs) + seq![' '] + y
        }),
{
    assert(xs.push(y).drop_last() =~= xs);
}

proof fn lemma_join_nonempty(xs: Seq<Seq<char>>)
    requires
        forall|i: int| 0 <= i < xs.len() ==> #[trigger] xs[i].len() > 0,
    ensures
        xs.len() > 0 ==> join_spaced(xs).len() > 0,
    decreases xs.len(),
{
    if xs.len() > 1 {
        lemma_join_nonempty(xs.drop_last());
    }
}

/// Wrapping loses no word and adds none: the lines joined with spaces are the words joined
/// with spaces; no line is empty.
proof fn lemma_wrap_state_keeps_words(words: Seq<Seq<char>>, width: int)
    requires
        forall|i: int| 0 <= i < words.len() ==> #[trigger] words[i].len() > 0,
    ensures
        join_spaced(all_lines(wrap_state(words, width))) == join_spaced(words),
        forall|i: int|
            0 <= i < all_lines(wrap_state(words, width)).len() ==> #[trigger] all_lines(
                wrap_state(words, width),
            )[i].len() > 0,
    decreases words.len(),
{
    if words.len() > 0 {
        let prefix = words.drop_last();
        let word = words.last();
        lemma_wrap_state_keeps_words(prefix, width);
        let st = wrap_state(prefix, width);
        let (lines, cur) = st;
        let al = all_lines(st);
        lemma_join_nonempty(prefix);
        lemma_join_nonempty(al);
        lemma_join_push(prefix, word);
        if cur.len() != 0 {
            lemma_join_push(lines, cur);
            let potential = cur + seq![' '] + word;
            if byte_len16(potential) > width {
                lemma_join_push(lines.push(cur), word);
            } else {
                lemma_join_push(lines, potential);
                assert(join_spaced(lines.push(potential)) =~= join_spaced(lines.push(cur))
                    + seq![' '] + word);
            }
        } else {
            assert(al == lines);
            lemma_join_push(lines, word);
        }
        assert forall|i: int|
            0 <= i < all_lines(wrap_state(words, width)).len() implies #[trigger] all_lines(
            wrap_state(words, width),
        )[i].len() > 0 by {
            let ns = wrap_state(words, width);
            assert(ns == wrap_step(st, word, width));
            let nal = all_lines(ns);
            if i < lines.len() {
                assert(nal[i] == lines[i]);
                assert(al[i] == lines[i]);
            } else if cur.len() != 0 {
                if i == lines.len() {
                    assert(al[i] == cur);
                }
            }
        }
    }
}

/// Law: wrapping loses no word and adds none: the lines of `wrap_text`, joined with single
/// spaces, are the words of the text joined with single spaces; and no line is empty.
pub proof fn lemma_wrap_text_keeps_words(text: Seq<char>, width: int)
    ensures
        join_spaced(wrap_text_spec(text, width)) == join_spaced(words_of(text)),
        forall|i: int|
            0 <= i < wrap_text_spec(text, width).len() ==> #[trigger] wrap_text_spec(text, width)[i].len()
                > 0,
{
    crate::text::lemma_word_spans_ordered(text);
    let words = words_of(text);
    assert forall|i: int| 0 <= i < words.len() implies #[trigger] words[i].len() > 0 by {
        assert(word_spans(text)[i].0 < word_spans(text)[i].1);
    }
    lemma_wrap_state_keeps_words(words, width);
    assert(wrap_text_spec(text, width) == all_lines(wrap_state(words, width)));
}

/// Whether `line` fits in `width` bytes or is one of `words`.
pub open spec fn fits_or_word(line: Seq<char>, words: Seq<Seq<char>>, width: int) -> bool {
    byte_len16(line) <= width || words.contains(line)
}

proof fn lemma_wrap_state_fits(words: Seq<Seq<char>>, width: int)
    requires
        width >= 0,
    ensures
        forall|i: int|
            0 <= i < wrap_state(words, width).0.len() ==> fits_or_word(
                #[trigger] wrap_state(words, width).0[i],
                words,
                width,
            ),
        fits_or_word(wrap_state(words, width).1, words, width),
    decreases words.len(),
{
    if words.len() == 0 {
        assert(byte_len16(Seq::<char>::empty()) == 0) by {
            assert(encode_utf8(Seq::<char>::empty()) =~= Seq::<u8>::empty());
        }
    } else {
        let prefix = words.drop_last();
        let word = words.last();
        lemma_wrap_state_fits(prefix, width);
        let st = wrap_state(prefix, width);
        let ns = wrap_state(words, width);
        assert(ns == wrap_step(st, word, width));
        assert(words.contains(word)) by {
            assert(words[words.len() - 1] == word);
        }
        assert forall|l: Seq<char>| fits_or_word(l, prefix, width) implies fits_or_word(l, words, width) by {
            if prefix.contains(l) {
                let k = choose|k: int| 0 <= k < prefix.len() && prefix[k] == l;
                assert(words[k] == l);
            }
        }
        assert forall|i: int| 0 <= i < ns.0.len() implies fits_or_word(#[trigger] ns.0[i], words, width) by {
            if i < st.0.len() {
                assert(ns.0[i] == st.0[i]);
                assert(fits_or_word(st.0[i], prefix, width));
            }
        }
    }
}

/// Law: every line of `wrap_text` fits in the width, in bytes, or is a single word of the
/// text (a word longer than the width stands alone).
pub proof fn lemma_wrap_text_lines_fit(text: Seq<char>, width: int)
    requires
        width >= 0,
    ensures
        forall|i: int|
            0 <= i < wrap_text_spec(text, width).len() ==> fits_or_word(
                #[trigger] wrap_text_spec(text, width)[i],
                words_of(text),
                width,
            ),
{
    let words = words_of(text);
    lemma_wrap_state_fits(words, width);
    let st = wrap_state(words, width);
    assert(wrap_text_spec(text, width) == all_lines(st));
    assert forall|i: int| 0 <= i < all_lines(st).len() implies fits_or_word(
        #[trigger] all_lines(st)[i],
        words,
        width,
    ) by {
        if i < st.0.len() {
            assert(all_lines(st)[i] == st.0[i]);
        }
    }
}

/// The line holding position `pos` of lines of the given lengths, and the position's
/// offset within it; none when `pos` is past the end.
pub open spec fn locate(lens: Seq<int>, pos: int) -> Option<(int, int)>
    decreases lens.len(),
{
    if lens.len() == 0 {
        None
    } else if pos < lens[0] {
        Some((0, pos))
    } else {
        match locate(lens.skip(1), pos - lens[0]) {
            Some((line, x)) => Some((line + 1, x)),
            None => None,
        }
    }
}

/// The total of the lengths.
pub open spec fn total_len(lens: Seq<int>) -> int
    decreases lens.len(),
{
    if lens.len() == 0 {
        0
    } else {
        lens[0] + total_len(lens.skip(1))
    }
}

pub open spec fn as_ints(v: Seq<usize>) -> Seq<int> {
    v.map_values(|n: usize| n as int)
}

proof fn lemma_total_len_nonneg(lens: Seq<int>)
    requires
        forall|i: int| 0 <= i < lens.len() ==> lens[i] >= 0,
    ensures
        total_len(lens) >= 0,
    decreases lens.len(),
{
    if lens.len() > 0 {
        lemma_total_len_nonneg(lens.skip(1));
    }
}

/// The line (and offset in it) that position `current_pos` falls on, for lines of the
/// given lengths; (0, 0) when it lies past the last line.
pub fn locate_position(line_lens: &[usize], current_pos: usize) -> (r: (usize, usize))
    requires
        total_len(as_ints(line_lens@)) <= usize::MAX,
    ensures
        r == (match locate(as_ints(line_lens@), current_pos as int) {
            Some((line, x)) => (line as usize, x as usize),
            None => (0usize, 0usize),
        }),
{
    let ghost all = as_ints(line_lens@);
    assert(all.skip(0) =~= all);
    let mut cumulative: usize = 0;
    let mut i: usize = 0;
    while i < line_lens.len()
        invariant
            all == as_ints(line_lens@),
            i <= line_lens@.len(),
            cumulative + total_len(all.skip(i as int)) == total_len(all),
            total_len(all) <= usize::MAX,
            current_pos >= cumulative,
            locate(all, current_pos as int) == (match locate(
                all.skip(i as int),
                current_pos - cumulative,
            ) {
                Some((line, x)) => Some((line + i, x)),
                None => None,
            }),
        decreases line_lens.len() - i,
    {
        let line_len = line_lens[i];
        let ghost rest = all.skip(i as int);
        assert(rest[0] == line_len as int);
        assert(rest.skip(1) =~= all.skip(i + 1));
        proof {
            lemma_total_len_nonneg(all.skip(i + 1));
        }
        if current_pos < cumulative + line_len {
            return (i, current_pos - cumulative);
        }
        cumulative += line_len;
        i += 1;
    }
    assert(all.skip(i as int) =~= Seq::<int>::empty());
    (0, 0)
}

/// The range of lines to show: `line_count` lines from one line above the cursor's line
/// (counted from the top when the cursor lies past the end), cut at the last line.
pub fn calculate_visible_lines(line_lens: &[usize], current_pos: usize, line_count: usize) -> (r: (
    usize,
    usize,
))
    requires
        total_len(as_ints(line_lens@)) <= usize::MAX,
        line_count >= 1,
        line_lens@.len() + line_count <= usize::MAX,
    ensures
        ({
            let cursor_line = match locate(as_ints(line_lens@), current_pos as int) {
                Some((line, x)) => line,
                None => 0,
            };
            let offset = if line_count >= 2 { line_count - 2 } else { 0 };
            let start = if cursor_line >= offset { cursor_line - offset } else { 0 };
            let end = if start + line_count < line_lens@.len() {
                start + line_count
            } else {
                line_lens@.len() as int
            };
            r == (start as usize, end as usize)
        }),
{
    let (cursor_line, _) = locate_position(line_lens, current_pos);
    proof {
        lemma_locate_in_range(as_ints(line_lens@), current_pos as int);
    }
    let scroll_offset = (line_count - 1).saturating_sub(1);
    let visible_start = cursor_line.saturating_sub(scroll_offset);
    let visible_end = if visible_start + line_count < line_lens.len() {
        visible_start + line_count
    } else {
        line_lens.len()
    };
    (visible_start, visible_end)
}

/// A located line is one of the lines, and the offset lies between 0 and the position.
pub proof fn lemma_locate_in_range(lens: Seq<int>, pos: int)
    requires
        pos >= 0,
        forall|i: int| 0 <= i < lens.len() ==> lens[i] >= 0,
    ensures
        locate(lens, pos) matches Some((line, x)) ==> 0 <= line < lens.len() && 0 <= x <= pos,
    decreases lens.len(),
{
    if lens.len() > 0 && pos >= lens[0] {
        lemma_locate_in_range(lens.skip(1), pos - lens[0]);
    }
}

/// The located (line, offset) of a position, (0, 0) past the end.
pub open spec fn locate_or_zero(lens: Seq<int>, pos: int) -> (int, int) {
    match locate(lens, pos) {
        Some((line, x)) => (line, x),
        None => (0, 0),
    }
}

/// The first line shown for the cursor on `cursor_line`, `line_count` lines at a time.
pub open spec fn first_visible_line(cursor_line: int, line_count: int) -> int {
    let offset = if line_count >= 2 { line_count - 2 } else { 0 };
    if cursor_line >= offset { cursor_line - offset } else { 0 }
}

/// Column and row, as `u16`, of the cursor relative to the typing area's text.
pub open spec fn cursor_cells(lens: Seq<int>, pos: int, line_count: int) -> (u16, u16) {
    let (cy, cx) = locate_or_zero(lens, pos);
    ((cx as usize) as u16, ((cy - first_visible_line(cy, line_count)) as usize) as u16)
}

/// Where the terminal cursor goes for position `current_pos` in lines of the given lengths
/// shown `line_count` at a time in `area`, below `pad_size` blank rows and a two-row header.
pub fn cursor_position(
    line_lens: &[usize],
    current_pos: usize,
    line_count: usize,
    area: Rect,
    pad_size: usize,
) -> (r: (u16, u16))
    requires
        total_len(as_ints(line_lens@)) <= usize::MAX,
        line_count >= 1,
        area.x + cursor_cells(as_ints(line_lens@), current_pos as int, line_count as int).0
            <= u16::MAX,
        area.y + (pad_size as u16) + cursor_cells(
            as_ints(line_lens@),
            current_pos as int,
            line_count as int,
        ).1 + 2 <= u16::MAX,
    ensures
        ({
            let (col, row) = cursor_cells(as_ints(line_lens@), current_pos as int, line_count as int);
            r == ((area.x + col) as u16, (area.y + (pad_size as u16) + row + 2) as u16)
        }),
{
    let (cursor_y, cursor_x) = locate_position(line_lens, current_pos);
    proof {
        lemma_locate_in_range(as_ints(line_lens@), current_pos as int);
    }
    let cursor_x = cursor_x as u16;
    let scroll_offset = (line_count - 1).saturating_sub(1);
    let visible_start = cursor_y.saturating_sub(scroll_offset);
    let visible_cursor_y = cursor_y - visible_start;
    let header_offset: u16 = 2;
    let ghost cells = cursor_cells(as_ints(line_lens@), current_pos as int, line_count as int);
    let ghost loc = locate_or_zero(as_ints(line_lens@), current_pos as int);
    assert(cursor_y as int == loc.0) by {
        match locate(as_ints(line_lens@), current_pos as int) {
            Some((line, x)) => {
                assert(0 <= line < line_lens@.len());
                assert(line_lens@.len() == line_lens.len());
            },
            None => {},
        }
    }
    assert(visible_start as int == first_visible_line(loc.0, line_count as int));
    assert(cursor_x == cells.0);
    assert(visible_cursor_y as u16 == cells.1);
    (area.x + cursor_x, area.y + pad_size as u16 + visible_cursor_y as u16 + header_offset)
}

/// A rectangle `percent_x` percent as wide and `percent_y` percent as tall as `r`, centred
/// in it by ratatui's layout solver: the middle row of a vertical split into margins and a
/// part `percent_y` percent tall (see `centered_row`), then the middle column of a
/// horizontal split of that row (see `centered_part`).
pub fn centered_rect(percent_x: u16, percent_y: u16, r: Rect) -> (res: Rect)
    requires
        percent_x <= 100,
        percent_y <= 100,
    ensures
        res == crate::ui::utils::centered_part(crate::ui::utils::centered_row(r, percent_y), percent_x),
{
    let pad_y = (100 - percent_y) / 2;
    let rows = vec![
        Constraint::Percentage(pad_y),
        Constraint::Percentage(percent_y),
        Constraint::Percentage(pad_y),
    ];
    assert(rows@ =~= crate::ui::utils::centering_constraints(percent_y));
    let popup_layout = split_area(Direction::Vertical, &rows, r);
    proof {
        crate::ui::utils::lemma_centering_exact(Direction::Vertical, r, pad_y, percent_y);
        assert(popup_layout@[1] == crate::geometry::exact_part(Direction::Vertical, rows@, r, 1));
    }
    crate::ui::utils::apply_horizontal_centering(popup_layout[1], percent_x)
}

} // verus!
