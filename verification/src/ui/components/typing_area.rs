//! The typing area's text: each char of the visible lines with the style it is drawn in.

use vstd::prelude::*;
use crate::text::{chars_of, span_to_int, word_spans, word_spans_of, words_of};
use crate::tui::components::typing_cache::{line_byte_len, seq_bytes};
use crate::geometry::{Position, Rect};
use crate::ui::helpers::utils::{lemma_word_positions_shape, word_positions_spec, WordPosition};

verus! {

/// How a char of the target text is drawn.
#[derive(Debug, Clone, Copy, PartialEq, Eq, Structural)]
pub enum CharStyle {
    /// Typed as it stands.
    Success,
    /// Typed as another char.
    Error,
    /// Not typed yet.
    Pending,
    /// Passed over by jumping to the next word.
    Skipped,
    /// Typed right, in a wrong word the cursor has left.
    UnderlinedSuccess,
    /// Typed wrong, in a wrong word the cursor has left.
    UnderlinedError,
    /// In the default style (a space between words, where spaces are not typed over).
    Plain,
    /// Dimmed in the muted color (a space between words).
    Separator,
}

pub struct TypingAreaComponent;

/// The entry typed at `idx`: `None` before anything was typed there, `Some(None)` for a
/// char skipped over, `Some(Some(c))` for a typed char.
pub open spec fn input_at(input: Seq<Option<char>>, idx: int) -> Option<Option<char>> {
    if 0 <= idx < input.len() {
        Some(input[idx])
    } else {
        None
    }
}

/// The style of the target char `c` at `idx`, underlined where the word is.
pub open spec fn char_style(input: Seq<Option<char>>, idx: int, c: char, underline: bool) -> CharStyle {
    match input_at(input, idx) {
        Some(None) => CharStyle::Skipped,
        None => CharStyle::Pending,
        Some(Some(t)) => if t == c {
            if underline {
                CharStyle::UnderlinedSuccess
            } else {
                CharStyle::Success
            }
        } else if underline {
            CharStyle::UnderlinedError
        } else {
            CharStyle::Error
        },
    }
}

/// The style of the space typed at `idx`.
pub open spec fn space_style(input: Seq<Option<char>>, idx: int) -> CharStyle {
    match input_at(input, idx) {
        Some(None) => CharStyle::Skipped,
        Some(Some(_)) => CharStyle::Success,
        None => CharStyle::Pending,
    }
}

/// The chars of `word`, starting at `start`, with their styles.
pub open spec fn styled_word(word: Seq<char>, start: int, input: Seq<Option<char>>, underline: bool) -> Seq<
    (char, CharStyle),
> {
    Seq::new(word.len(), |i: int| (word[i], char_style(input, start + i, word[i], underline)))
}

/// The cells of word `k`: its chars and, but after the last word, a space. The space's
/// entry is looked up at the word's start plus the word's length in UTF-8 bytes. The word is
/// underlined when it is wrong, the cursor has passed its end, and the theme can show it.
pub open spec fn word_cells(
    k: int,
    text: Seq<char>,
    positions: Seq<WordPosition>,
    input: Seq<Option<char>>,
    wrong: Seq<bool>,
    cursor: int,
    supports_themes: bool,
) -> Seq<(char, CharStyle)> {
    let words = words_of(text);
    let word = words[k];
    let start = positions[k].start_index as int;
    let underline = wrong[k] && cursor > start + word.len() && supports_themes;
    let body = styled_word(word, start, input, underline);
    if k < words.len() - 1 {
        body.push((' ', space_style(input, start + seq_bytes(word))))
    } else {
        body
    }
}

/// Whether line `line` is among the `count` lines shown from line `first`.
pub open spec fn in_window(line: int, first: int, count: int) -> bool {
    first <= line < first + count
}

/// After the first `n` words: the finished visible lines, the line being filled, and its
/// cells so far. A word on another line finishes the current one (kept when visible);
/// words on hidden lines add nothing.
pub open spec fn text_state(
    n: nat,
    text: Seq<char>,
    positions: Seq<WordPosition>,
    input: Seq<Option<char>>,
    wrong: Seq<bool>,
    cursor: int,
    supports_themes: bool,
    first: int,
    count: int,
) -> (Seq<Seq<(char, CharStyle)>>, int, Seq<(char, CharStyle)>)
    decreases n,
{
    if n == 0 {
        (seq![], positions[0].line as int, seq![])
    } else {
        let (lines, line, cur) = text_state(
            (n - 1) as nat,
            text,
            positions,
            input,
            wrong,
            cursor,
            supports_themes,
            first,
            count,
        );
        let k = n - 1;
        let p = positions[k].line as int;
        let (lines2, line2, cur2) = if p != line {
            (if in_window(line, first, count) { lines.push(cur) } else { lines }, p, seq![])
        } else {
            (lines, line, cur)
        };
        if in_window(line2, first, count) {
            (
                lines2,
                line2,
                cur2 + word_cells(k, text, positions, input, wrong, cursor, supports_themes),
            )
        } else {
            (lines2, line2, cur2)
        }
    }
}

/// The number of words that have a position.
pub open spec fn placed_words(text: Seq<char>, positions: Seq<WordPosition>) -> nat {
    if words_of(text).len() < positions.len() {
        words_of(text).len()
    } else {
        positions.len()
    }
}

/// The visible lines of the typing area, each as its chars with their styles: a single
/// empty line without positions.
pub open spec fn create_text_spec(
    text: Seq<char>,
    positions: Seq<WordPosition>,
    input: Seq<Option<char>>,
    wrong: Seq<bool>,
    cursor: int,
    supports_themes: bool,
    first: int,
    count: int,
) -> Seq<Seq<(char, CharStyle)>> {
    if positions.len() == 0 {
        seq![seq![]]
    } else {
        let (lines, line, cur) = text_state(
            placed_words(text, positions),
            text,
            positions,
            input,
            wrong,
            cursor,
            supports_themes,
            first,
            count,
        );
        if in_window(line, first, count) {
            lines.push(cur)
        } else {
            lines
        }
    }
}

/// The style of the target char `c` at `idx`.
fn style_of(input: &[Option<char>], idx: usize, c: char, underline: bool) -> (r: CharStyle)
    ensures
        r == char_style(input@, idx as int, c, underline),
{
    if idx < input.len() {
        match input[idx] {
            None => CharStyle::Skipped,
            Some(t) => if t == c {
                if underline {
                    CharStyle::UnderlinedSuccess
                } else {
                    CharStyle::Success
                }
            } else if underline {
                CharStyle::UnderlinedError
            } else {
                CharStyle::Error
            },
        }
    } else {
        CharStyle::Pending
    }
}

/// The style of the space typed at `idx`.
fn style_of_space(input: &[Option<char>], idx: usize) -> (r: CharStyle)
    ensures
        r == space_style(input@, idx as int),
{
    if idx < input.len() {
        match input[idx] {
            None => CharStyle::Skipped,
            Some(_) => CharStyle::Success,
        }
    } else {
        CharStyle::Pending
    }
}

impl TypingAreaComponent {
    /// The visible lines of the typing area for `text` with its words placed at
    /// `word_positions`: the `visible_line_count` lines from line `scroll_offset`, each as
    /// its chars and the spaces after them with the style each is drawn in, given what was
    /// typed (`user_input`), where the cursor is, and which words are wrong (`word_wrong`,
    /// one flag per position).
    pub fn create_text(
        text: &str,
        word_positions: &[WordPosition],
        user_input: &[Option<char>],
        cursor_pos: usize,
        word_wrong: &[bool],
        supports_themes: bool,
        scroll_offset: usize,
        visible_line_count: usize,
    ) -> (r: Vec<Vec<(char, CharStyle)>>)
        requires
            word_wrong@.len() == word_positions@.len(),
            scroll_offset + visible_line_count <= usize::MAX,
            forall|k: int|
                0 <= k < placed_words(text@, word_positions@) ==> (#[trigger] word_positions@[k]).start_index
                    + seq_bytes(words_of(text@)[k]) <= usize::MAX,
        ensures
            r@.map_values(|l: Vec<(char, CharStyle)>| l@) == create_text_spec(
                text@,
                word_positions@,
                user_input@,
                word_wrong@,
                cursor_pos as int,
                supports_themes,
                scroll_offset as int,
                visible_line_count as int,
            ),
    {
        if word_positions.len() == 0 {
            let r: Vec<Vec<(char, CharStyle)>> = vec![Vec::new()];
            assert(r@.map_values(|l: Vec<(char, CharStyle)>| l@) =~= seq![seq![]]);
            return r;
        }
        let chars = chars_of(text);
        let spans = word_spans_of(&chars);
        let ghost sp = spans@.map_values(|p: (usize, usize)| span_to_int(p));
        let ghost words = words_of(text@);
        let ghost tx = text@;
        let ghost pos = word_positions@;
        let ghost inp = user_input@;
        let ghost wr = word_wrong@;
        let ghost cur_i = cursor_pos as int;
        let ghost first_i = scroll_offset as int;
        let ghost count_i = visible_line_count as int;
        assert(words.len() == sp.len());
        let n = if spans.len() < word_positions.len() {
            spans.len()
        } else {
            word_positions.len()
        };
        assert(n == placed_words(tx, pos));
        let first = scroll_offset;
        let last = scroll_offset + visible_line_count;
        let mut lines: Vec<Vec<(char, CharStyle)>> = Vec::new();
        let mut cur_line = word_positions[0].line;
        let mut cur: Vec<(char, CharStyle)> = Vec::new();
        let mut k: usize = 0;
        while k < n
            invariant
                chars@ == tx,
                tx == text@,
                sp == spans@.map_values(|p: (usize, usize)| span_to_int(p)),
                sp == word_spans(tx),
                words == words_of(tx),
                words.len() == sp.len(),
                pos == word_positions@,
                inp == user_input@,
                wr == word_wrong@,
                wr.len() == pos.len(),
                cur_i == cursor_pos as int,
                first_i == first as int,
                count_i == visible_line_count as int,
                last == first + visible_line_count,
                n == placed_words(tx, pos),
                n <= spans@.len(),
                n <= pos.len(),
                pos.len() > 0,
                forall|j: int| 0 <= j < sp.len() ==> 0 <= #[trigger] sp[j].0 < sp[j].1 <= tx.len(),
                forall|j: int|
                    0 <= j < n ==> (#[trigger] pos[j]).start_index + seq_bytes(words[j])
                        <= usize::MAX,
                k <= n,
                (lines@.map_values(|l: Vec<(char, CharStyle)>| l@), cur_line as int, cur@)
                    == text_state(k as nat, tx, pos, inp, wr, cur_i, supports_themes, first_i, count_i),
            decreases n - k,
        {
            let p = word_positions[k];
            let ghost old_lines = lines@.map_values(|l: Vec<(char, CharStyle)>| l@);
            let ghost old_cur = cur@;
            if p.line != cur_line {
                if cur_line >= first && cur_line < last {
                    lines.push(cur);
                    assert(lines@.map_values(|l: Vec<(char, CharStyle)>| l@) =~= old_lines.push(old_cur));
                }
                cur = Vec::new();
                cur_line = p.line;
            }
            if cur_line >= first && cur_line < last {
                let (s, e) = spans[k];
                assert(sp[k as int] == (s as int, e as int));
                let ghost w = words[k as int];
                assert(w == tx.subrange(s as int, e as int));
                let mut word: Vec<char> = Vec::new();
                let mut i = s;
                while i < e
                    invariant
                        chars@ == tx,
                        s <= i <= e,
                        e <= tx.len(),
                        word@ == tx.subrange(s as int, i as int),
                    decreases e - i,
                {
                    word.push(chars[i]);
                    assert(tx.subrange(s as int, i + 1) =~= tx.subrange(s as int, i as int).push(
                        tx[i as int],
                    ));
                    i += 1;
                }
                assert(word@ == w);
                let start = p.start_index;
                assert(pos[k as int].start_index + seq_bytes(w) <= usize::MAX);
                proof {
                    lemma_chars_within_bytes(w);
                }
                let word_len = word.len();
                let underline = word_wrong[k] && cursor_pos > start + word_len && supports_themes;
                let ghost body = styled_word(w, start as int, inp, underline);
                let ghost before = cur@;
                let mut j: usize = 0;
                while j < word.len()
                    invariant
                        word@ == w,
                        inp == user_input@,
                        body == styled_word(w, start as int, inp, underline),
                        start + w.len() <= usize::MAX,
                        j <= word@.len(),
                        cur@ == before + body.take(j as int),
                    decreases word.len() - j,
                {
                    let c = word[j];
                    let style = style_of(user_input, start + j, c, underline);
                    cur.push((c, style));
                    assert(body.take(j + 1) =~= body.take(j as int).push(body[j as int]));
                    j += 1;
                }
                assert(body.take(j as int) =~= body);
                if k + 1 < spans.len() {
                    let bytes = line_byte_len(&word);
                    let style = style_of_space(user_input, start + bytes);
                    cur.push((' ', style));
                }
                assert(cur@ =~= before + word_cells(
                    k as int,
                    tx,
                    pos,
                    inp,
                    wr,
                    cur_i,
                    supports_themes,
                ));
            }
            k += 1;
        }
        if cur_line >= first && cur_line < last {
            let ghost old_lines = lines@.map_values(|l: Vec<(char, CharStyle)>| l@);
            let ghost old_cur = cur@;
            lines.push(cur);
            assert(lines@.map_values(|l: Vec<(char, CharStyle)>| l@) =~= old_lines.push(old_cur));
        }
        lines
    }
}

/// Whether the words' offsets in the text increase strictly, as placement gives them.
pub open spec fn starts_increasing(positions: Seq<WordPosition>) -> bool {
    forall|i: int, j: int|
        0 <= i < j < positions.len() ==> (#[trigger] positions[i]).start_index
            < (#[trigger] positions[j]).start_index
}

/// The last word that starts at or before `cursor`; the first word when none does.
pub open spec fn word_at(positions: Seq<WordPosition>, cursor: int) -> int
    decreases positions.len(),
{
    if positions.len() == 0 {
        0
    } else if positions.last().start_index <= cursor {
        positions.len() - 1
    } else {
        word_at(positions.drop_last(), cursor)
    }
}

/// The first line shown so that the line `line` sits in the middle of `count` lines (at the
/// top when only one line shows).
pub open spec fn scroll_spec(line: int, count: int) -> int {
    if count <= 1 {
        line
    } else if line >= count / 2 {
        line - count / 2
    } else {
        0
    }
}

/// Where the text is drawn in `area`: `available_width` columns (as a `u16`), centered.
pub open spec fn render_area_spec(area: Rect, available_width: usize) -> Rect {
    let w = available_width as u16;
    Rect {
        x: (area.x + (if area.width >= w { (area.width - w) / 2 } else { 0 })) as u16,
        y: area.y,
        width: w,
        height: area.height,
    }
}

/// The cell of the cursor at char `cursor` in text drawn in `render_area` (`text_height`
/// lines, `line_count` shown at a time): the column of the cursor's word plus the offset in
/// it, and the word's line less the first line shown; `None` when the cell falls outside the
/// drawn text.
pub open spec fn cursor_cell_spec(
    positions: Seq<WordPosition>,
    cursor: int,
    line_count: int,
    render_area: Rect,
    text_height: int,
) -> Option<Position> {
    let wp = positions[word_at(positions, cursor)];
    let line = wp.line as int;
    let x = render_area.x + (wp.col as u16) + ((cursor - wp.start_index) as usize as u16);
    let y = render_area.y + ((line - scroll_spec(line, line_count)) as usize as u16);
    let right = if render_area.x + render_area.width <= u16::MAX {
        render_area.x + render_area.width
    } else {
        u16::MAX as int
    };
    if x >= render_area.x && x < right && y >= render_area.y && y < render_area.y + (
    text_height as u16) {
        Some(Position { x: x as u16, y: y as u16 })
    } else {
        None
    }
}

/// Whether the sums that place the cursor stay within `u16`, and the cursor is not before
/// its word.
pub open spec fn cursor_cell_fits(
    positions: Seq<WordPosition>,
    cursor: int,
    line_count: int,
    render_area: Rect,
    text_height: int,
) -> bool {
    let wp = positions[word_at(positions, cursor)];
    let line = wp.line as int;
    let x = render_area.x + (wp.col as u16) + ((cursor - wp.start_index) as usize as u16);
    let y = render_area.y + ((line - scroll_spec(line, line_count)) as usize as u16);
    let right = if render_area.x + render_area.width <= u16::MAX {
        render_area.x + render_area.width
    } else {
        u16::MAX as int
    };
    &&& cursor >= wp.start_index
    &&& x <= u16::MAX
    &&& y <= u16::MAX
    &&& (x >= render_area.x && x < right && y >= render_area.y) ==> render_area.y + (
    text_height as u16) <= u16::MAX
}

proof fn lemma_word_at(positions: Seq<WordPosition>, cursor: int)
    requires
        positions.len() > 0,
        starts_increasing(positions),
    ensures
        0 <= word_at(positions, cursor) < positions.len(),
        positions[word_at(positions, cursor)].start_index > cursor ==> word_at(positions, cursor)
            == 0,
        forall|i: int|
            0 <= i < positions.len() ==> ((#[trigger] positions[i]).start_index <= cursor <==> (
            i <= word_at(positions, cursor) && positions[word_at(positions, cursor)].start_index
                <= cursor)),
    decreases positions.len(),
{
    let w = word_at(positions, cursor);
    let n = positions.len() as int;
    if positions[n - 1].start_index <= cursor {
        assert(w == n - 1);
        assert forall|i: int| 0 <= i < n implies ((#[trigger] positions[i]).start_index
            <= cursor <==> (i <= w && positions[w].start_index <= cursor)) by {
            if i < n - 1 {
                assert(positions[i].start_index < positions[n - 1].start_index);
            }
        }
    } else {
        let p = positions.drop_last();
        assert(w == word_at(p, cursor));
        if n == 1 {
            assert(w == 0);
        } else {
            lemma_word_at(p, cursor);
            assert forall|i: int| 0 <= i < n implies ((#[trigger] positions[i]).start_index
                <= cursor <==> (i <= w && positions[w].start_index <= cursor)) by {
                if i < n - 1 {
                    assert(p[i] == positions[i]);
                }
                assert(p[w] == positions[w]);
            }
        }
    }
}

impl TypingAreaComponent {
    /// The word the cursor at char `cursor` is in: the last one starting at or before it,
    /// found by binary search over the words' offsets; the first word when none does.
    pub fn word_index(word_positions: &[WordPosition], cursor: usize) -> (r: usize)
        requires
            word_positions@.len() > 0,
            starts_increasing(word_positions@),
        ensures
            r == word_at(word_positions@, cursor as int),
    {
        let ghost pos = word_positions@;
        proof {
            lemma_word_at(pos, cursor as int);
        }
        let ghost w = word_at(pos, cursor as int);
        // The offsets before `lo` are below the cursor, those from `hi` above it.
        let mut lo: usize = 0;
        let mut hi: usize = word_positions.len();
        while lo < hi
            invariant
                pos == word_positions@,
                starts_increasing(pos),
                0 <= lo <= hi <= pos.len(),
                w == word_at(pos, cursor as int),
                0 <= w < pos.len(),
                forall|i: int| 0 <= i < lo ==> (#[trigger] pos[i]).start_index < cursor,
                forall|i: int| hi <= i < pos.len() ==> (#[trigger] pos[i]).start_index > cursor,
                forall|i: int|
                    0 <= i < pos.len() ==> ((#[trigger] pos[i]).start_index <= cursor <==> (i <= w
                        && pos[w].start_index <= cursor)),
            decreases hi - lo,
        {
            let mid = lo + (hi - lo) / 2;
            let start = word_positions[mid].start_index;
            if start == cursor {
                proof {
                    assert(pos[mid as int].start_index <= cursor);
                    assert(mid as int <= w && pos[w].start_index <= cursor);
                    if (mid as int) < w {
                        assert(pos[mid as int].start_index < pos[w].start_index);
                    }
                    assert(mid as int == w);
                }
                return mid;
            } else if start < cursor {
                lo = mid + 1;
            } else {
                hi = mid;
            }
        }
        if lo == 0 {
            proof {
                assert(pos[w].start_index > cursor);
            }
            0
        } else {
            proof {
                assert(pos[lo - 1].start_index < cursor);
                assert(lo - 1 <= w && pos[w].start_index <= cursor);
                if w >= hi {
                    assert(pos[w].start_index > cursor);
                }
            }
            lo - 1
        }
    }

    /// Where the typing area's text is drawn in `area`: `available_width` columns, centered.
    pub fn render_area(area: Rect, available_width: usize) -> (r: Rect)
        requires
            area.x + (if area.width >= available_width as u16 {
                (area.width - available_width as u16) / 2
            } else {
                0
            }) <= u16::MAX,
        ensures
            r == render_area_spec(area, available_width),
    {
        let area_width = available_width as u16;
        let area_padding = area.width.saturating_sub(area_width) / 2;
        Rect { x: area.x + area_padding, y: area.y, width: area_width, height: area.height }
    }

    /// The cell the cursor at char `cursor` is drawn in, or `None` when it falls outside
    /// the text drawn in `render_area`.
    pub fn cursor_cell(
        word_positions: &[WordPosition],
        cursor: usize,
        line_count: usize,
        render_area: Rect,
        text_height: usize,
    ) -> (r: Option<Position>)
        requires
            word_positions@.len() > 0,
            starts_increasing(word_positions@),
            cursor_cell_fits(
                word_positions@,
                cursor as int,
                line_count as int,
                render_area,
                text_height as int,
            ),
        ensures
            r == cursor_cell_spec(
                word_positions@,
                cursor as int,
                line_count as int,
                render_area,
                text_height as int,
            ),
            1 <= line_count <= u16::MAX ==> (r matches Some(p) ==> p.y - render_area.y == word_positions@[word_at(
                word_positions@,
                cursor as int,
            )].line - crate::ui::helpers::positioning::LayoutHelper::scroll_offset_spec(
                word_positions@[word_at(word_positions@, cursor as int)].line as int,
                line_count as int,
            ) && p.y - render_area.y < line_count),
    {
        proof {
            lemma_cursor_on_shown_line(word_positions@, cursor as int, line_count as int, render_area, text_height as int);
        }
        let idx = Self::word_index(word_positions, cursor);
        proof {
            lemma_word_at(word_positions@, cursor as int);
        }
        let current_word_pos = word_positions[idx];
        let current_line = current_word_pos.line;
        let scroll_offset = crate::ui::helpers::positioning::LayoutHelper::calculate_scroll_offset(
            current_line,
            line_count,
        );
        assert(scroll_offset == scroll_spec(current_line as int, line_count as int));
        let offset_x = cursor - current_word_pos.start_index;
        let cursor_x = render_area.x + current_word_pos.col as u16 + offset_x as u16;
        let cursor_y = render_area.y + (current_line - scroll_offset) as u16;
        let right = render_area.x.saturating_add(render_area.width);
        let in_bounds = cursor_x >= render_area.x && cursor_x < right && cursor_y
            >= render_area.y && cursor_y < render_area.y + text_height as u16;
        if in_bounds {
            Some(Position { x: cursor_x, y: cursor_y })
        } else {
            None
        }
    }
}

/// Law: the cursor is drawn on the row of its word's line within the lines the text shows.
/// With `line_count >= 1` lines shown from the first line the scroll gives
/// (`LayoutHelper::calculate_scroll_offset`), the cursor's line is among them; a drawn
/// cursor (its cell within the grid) sits as many rows below the top of the text as its
/// line is below the first line shown, inside the lines shown, and as many columns right of
/// the text's left edge as its word's column plus its offset into the word; and where
/// the shown lines fit the text's height and the cursor's column lies in the text's width,
/// the cursor is drawn.
pub proof fn lemma_cursor_on_shown_line(
    positions: Seq<WordPosition>,
    cursor: int,
    line_count: int,
    render_area: Rect,
    text_height: int,
)
    requires
        positions.len() > 0,
        starts_increasing(positions),
    ensures
        ({
            let wp = positions[word_at(positions, cursor)];
            let line = wp.line as int;
            let first = crate::ui::helpers::positioning::LayoutHelper::scroll_offset_spec(line, line_count);
            let x = render_area.x + (wp.col as u16) + ((cursor - wp.start_index) as usize as u16);
            let right = if render_area.x + render_area.width <= u16::MAX {
                render_area.x + render_area.width
            } else {
                u16::MAX as int
            };
            let r = cursor_cell_spec(positions, cursor, line_count, render_area, text_height);
            &&& line_count >= 1 ==> in_window(line, first, line_count)
            &&& (1 <= line_count <= u16::MAX && cursor_cell_fits(
                positions,
                cursor,
                line_count,
                render_area,
                text_height,
            )) ==> (r matches Some(p) ==> p.y - render_area.y == line - first && p.y - render_area.y
                < line_count && (wp.col <= u16::MAX && cursor - wp.start_index <= u16::MAX ==> p.x
                == render_area.x + wp.col + (cursor - wp.start_index)))
            &&& (1 <= line_count <= text_height && render_area.y + text_height <= u16::MAX
                && render_area.x <= x < right) ==> r is Some
        }),
{
    lemma_word_at(positions, cursor);
}

/// Law: the positions that word placement gives have strictly increasing offsets, so the
/// cursor's word can be looked up in them.
pub proof fn lemma_placed_positions_searchable(
    text: Seq<char>,
    width: int,
    positions: Seq<WordPosition>,
)
    requires
        width >= 0,
        positions.map_values(|p: WordPosition| p.as_tuple()) == word_positions_spec(text, width),
    ensures
        starts_increasing(positions),
{
    let t = positions.map_values(|p: WordPosition| p.as_tuple());
    if text.len() > 0 && width > 0 {
        lemma_word_positions_shape(text, width);
        assert forall|i: int, j: int| 0 <= i < j < positions.len() implies (#[trigger] positions[
            i]).start_index < (#[trigger] positions[j]).start_index by {
            assert(t[i].0 < t[j].0);
        }
    } else {
        assert(t.len() == 0);
    }
}

/// A word has no more chars than UTF-8 bytes.
proof fn lemma_chars_within_bytes(s: Seq<char>)
    ensures
        s.len() <= seq_bytes(s),
    decreases s.len(),
{
    if s.len() > 0 {
        lemma_chars_within_bytes(s.drop_last());
    }
}

} // verus!
