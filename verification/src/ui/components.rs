//! Screen components of the typing view: clickable elements and word placement.

pub mod action_bar;
pub mod bars;
pub mod command_bar;
pub mod leaderboard;
pub mod menu;
pub mod modal;
pub mod notifications;
pub mod progress;
pub mod results_widget;
pub mod size_warning;
pub mod typing_area;

use vstd::prelude::*;
use crate::config::ModeType;
use crate::geometry::{split_area, Constraint, Direction, Position, Rect};
use crate::text::{chars_of, span_to_int, word_spans, word_spans_of, words_of};
use crate::ui::components::typing_area::{input_at, CharStyle};
use crate::ui::utils::{place_word, placements, state_after, word_lengths};

verus! {

/// What a click on a region of the screen does.
#[derive(Debug, Clone, Copy, PartialEq, Eq, Structural)]
pub enum ClickAction {
    TogglePunctuation,
    ToggleSymbols,
    ToggleNumbers,
    SwitchMode(ModeType),
    SetModeValue(usize),
    ToggleThemePicker,
    OpenLanguagePicker,
    ToggleAbout,
}

/// A piece of text on a bar, with the width it takes and what clicking it does.
#[derive(Debug)]
pub struct UIElement {
    pub content: String,
    pub width: u16,
    pub is_active: bool,
    pub action: Option<ClickAction>,
}

impl UIElement {
    /// An element whose width is the number of chars of its content (wrapping at `u16`).
    pub fn new(content: String, is_active: bool, action: Option<ClickAction>) -> (r: Self)
        ensures
            r.content@ == content@,
            r.width == content@.len() as u16,
            r.is_active == is_active,
            r.action == action,
    {
        let width = chars_of(content.as_str()).len() as u16;
        Self { content, width, is_active, action }
    }
}

/// Where a word of the text stands on the typing area.
#[derive(Debug)]
pub struct WordPosition {
    pub start_index: usize,
    pub line: usize,
    pub col: usize,
}

impl WordPosition {
    pub open spec fn as_tuple(self) -> (int, int, int) {
        (self.start_index as int, self.line as int, self.col as int)
    }
}

/// Placement of a word here differs from `ui::utils` in one point: a word at least as
/// long as the width always starts a line at column 0, even in a zero-width area.
pub open spec fn place_word_long_first(st: (int, int, int), len: int, width: int) -> (int, int, int) {
    let (line, col, index) = st;
    let (line1, col1) = if col > 0 && (col + len >= width || col + 1 >= width) {
        (line + 1, 0int)
    } else {
        (line, col)
    };
    if len >= width {
        (if col1 > 0 { line1 + 1 } else { line1 }, 0int, index)
    } else {
        (line1, col1, index)
    }
}

pub open spec fn advance_word_long_first(st: (int, int, int), len: int, width: int) -> (int, int, int) {
    let (line, col, index) = place_word_long_first(st, len, width);
    let index2 = index + len + 1;
    let col2 = col + len + 1;
    if col2 >= width {
        (line + 1, 0int, index2)
    } else {
        (line, col2, index2)
    }
}

pub open spec fn state_after_long_first(lens: Seq<int>, width: int) -> (int, int, int)
    decreases lens.len(),
{
    if lens.len() == 0 {
        (0, 0, 0)
    } else {
        advance_word_long_first(state_after_long_first(lens.drop_last(), width), lens.last(), width)
    }
}

pub open spec fn placements_long_first(lens: Seq<int>, width: int) -> Seq<(int, int, int)>
    decreases lens.len(),
{
    if lens.len() == 0 {
        seq![]
    } else {
        let (line, col, index) = place_word_long_first(
            state_after_long_first(lens.drop_last(), width),
            lens.last(),
            width,
        );
        placements_long_first(lens.drop_last(), width).push((index, line, col))
    }
}

/// Places the words of `text` line by line in an area `available_width` columns wide.
pub fn calculate_word_positions(text: &str, available_width: usize) -> (r: Vec<WordPosition>)
    requires
        text@.len() < usize::MAX,
    ensures
        r@.map_values(|p: WordPosition| p.as_tuple()) == placements_long_first(
            word_lengths(text@),
            available_width as int,
        ),
{
    let chars = chars_of(text);
    let spans = word_spans_of(&chars);
    let ghost sp = spans@.map_values(|p: (usize, usize)| span_to_int(p));
    let ghost lens = word_lengths(text@);
    let ghost w = available_width as int;
    assert(lens.len() == sp.len());
    assert forall|j: int| 0 <= j < sp.len() - 1 implies #[trigger] sp[j].1 < sp[j + 1].0 by {
        assert(sp[j].1 < sp[j + 1].0);
    }
    let mut positions: Vec<WordPosition> = Vec::with_capacity(spans.len());
    let mut current_line: usize = 0;
    let mut current_col: usize = 0;
    let mut current_index: usize = 0;
    let mut k: usize = 0;
    while k < spans.len()
        invariant
            chars@ == text@,
            chars@.len() < usize::MAX,
            w == available_width as int,
            sp == spans@.map_values(|p: (usize, usize)| span_to_int(p)),
            lens.len() == sp.len(),
            forall|j: int| 0 <= j < sp.len() ==> lens[j] == #[trigger] sp[j].1 - sp[j].0,
            forall|j: int| 0 <= j < sp.len() ==> 0 <= #[trigger] sp[j].0 < sp[j].1 <= chars@.len(),
            forall|j: int| 0 <= j < sp.len() - 1 ==> #[trigger] sp[j].1 < sp[j + 1].0,
            k <= spans.len(),
            (current_line as int, current_col as int, current_index as int)
                == state_after_long_first(lens.take(k as int), w),
            positions@.map_values(|p: WordPosition| p.as_tuple()) == placements_long_first(
                lens.take(k as int),
                w,
            ),
            current_line <= current_index,
            current_col <= current_index,
            k < spans.len() ==> current_index <= sp[k as int].0,
            k == spans.len() ==> current_index <= chars@.len() + 1,
        decreases spans.len() - k,
    {
        let (s, e) = spans[k];
        let word_len = e - s;
        assert(lens.take(k + 1).drop_last() =~= lens.take(k as int));
        assert(lens.take(k + 1).last() == word_len as int);
        if current_col > 0 && (current_col + word_len >= available_width || current_col + 1
            >= available_width) {
            current_line += 1;
            current_col = 0;
        }
        if word_len >= available_width {
            if current_col > 0 {
                current_line += 1;
            }
            current_col = 0;
        }
        let ghost pos = WordPosition {
            start_index: current_index,
            line: current_line,
            col: current_col,
        };
        positions.push(
            WordPosition { start_index: current_index, line: current_line, col: current_col },
        );
        assert(positions@.map_values(|p: WordPosition| p.as_tuple()) =~= placements_long_first(
            lens.take(k as int),
            w,
        ).push(pos.as_tuple()));
        current_col += word_len + 1;
        current_index += word_len + 1;
        if current_col >= available_width {
            current_line += 1;
            current_col = 0;
        }
        k += 1;
    }
    assert(lens.take(k as int) =~= lens);
    positions
}

/// In an area at least one column wide both placements of `ui::utils` and of this module
/// agree: a word that reaches the width never follows another word on its line.
pub proof fn lemma_placements_agree(lens: Seq<int>, width: int)
    requires
        width > 0,
        forall|i: int| 0 <= i < lens.len() ==> lens[i] >= 0,
    ensures
        placements_long_first(lens, width) == placements(lens, width),
        state_after_long_first(lens, width) == state_after(lens, width),
        state_after(lens, width).1 >= 0,
    decreases lens.len(),
{
    if lens.len() > 0 {
        let prefix = lens.drop_last();
        lemma_placements_agree(prefix, width);
        let st = state_after(prefix, width);
        assert(place_word_long_first(st, lens.last(), width) == place_word(
            st,
            lens.last(),
            width,
        ));
    }
}

/// Law: in an area at least one column wide, this module places the words of any text
/// exactly as `ui::utils::calculate_word_positions` does.
pub proof fn lemma_agrees_with_utils(text: Seq<char>, width: int)
    requires
        width > 0,
    ensures
        placements_long_first(word_lengths(text), width) == crate::ui::utils::word_positions_spec(
            text,
            width,
        ),
{
    crate::text::lemma_word_spans_nonempty(text);
    let lens = word_lengths(text);
    assert forall|i: int| 0 <= i < lens.len() implies lens[i] >= 0 by {
        assert(crate::text::word_spans(text)[i].0 < crate::text::word_spans(text)[i].1);
    }
    lemma_placements_agree(lens, width);
    if text.len() == 0 {
        assert(crate::text::word_spans(text) =~= Seq::<(int, int)>::empty());
        assert(lens =~= Seq::<int>::empty());
    }
}

/// The style of target char `c` at `idx`: right (underlined in a wrong word), wrong
/// (underlined unless in the current word), or pending when nothing, or a skip, was typed
/// there.
pub open spec fn word_char_style(
    input: Seq<Option<char>>,
    idx: int,
    c: char,
    is_current: bool,
    is_wrong_word: bool,
) -> CharStyle {
    match input_at(input, idx) {
        Some(Some(t)) => if t == c {
            if is_wrong_word {
                CharStyle::UnderlinedSuccess
            } else {
                CharStyle::Success
            }
        } else if !is_current {
            CharStyle::UnderlinedError
        } else {
            CharStyle::Error
        },
        _ => CharStyle::Pending,
    }
}

/// The cells of word `i`: its chars with their styles, and a dimmed space after all but the
/// last position. The word is current while the cursor is within it or just after it, and
/// wrong when it is not current and flagged wrong.
pub open spec fn word_cells3(
    i: int,
    text: Seq<char>,
    positions: Seq<WordPosition>,
    input: Seq<Option<char>>,
    wrong: Seq<bool>,
    cursor: int,
) -> Seq<(char, CharStyle)> {
    let word = words_of(text)[i];
    let start = positions[i].start_index as int;
    let is_current = cursor >= start && cursor <= start + word.len();
    let is_wrong_word = !is_current && wrong[i];
    let body = Seq::new(
        word.len(),
        |j: int| (word[j], word_char_style(input, start + j, word[j], is_current, is_wrong_word)),
    );
    if i < positions.len() - 1 {
        body.push((' ', CharStyle::Separator))
    } else {
        body
    }
}

/// After the first `n` words: the finished lines, the current line's number and its cells.
/// A word on a later line finishes the current line (even an empty one).
pub open spec fn text_lines_state(
    n: nat,
    text: Seq<char>,
    positions: Seq<WordPosition>,
    input: Seq<Option<char>>,
    wrong: Seq<bool>,
    cursor: int,
) -> (Seq<Seq<(char, CharStyle)>>, int, Seq<(char, CharStyle)>)
    decreases n,
{
    if n == 0 {
        (seq![], 0, seq![])
    } else {
        let (lines, line, cur) = text_lines_state((n - 1) as nat, text, positions, input, wrong, cursor);
        let i = n - 1;
        let p = positions[i].line as int;
        let (lines1, line1, cur1) = if p > line {
            (lines.push(cur), p, Seq::<(char, CharStyle)>::empty())
        } else {
            (lines, line, cur)
        };
        (lines1, line1, cur1 + word_cells3(i, text, positions, input, wrong, cursor))
    }
}

/// All the lines of the typing text, each as its cells.
pub open spec fn typing_text_spec(
    text: Seq<char>,
    positions: Seq<WordPosition>,
    input: Seq<Option<char>>,
    wrong: Seq<bool>,
    cursor: int,
) -> Seq<Seq<(char, CharStyle)>> {
    let (lines, line, cur) = text_lines_state(positions.len(), text, positions, input, wrong, cursor);
    if cur.len() > 0 {
        lines.push(cur)
    } else {
        lines
    }
}

/// The lines of the typing text for `text` with its words at `word_positions`, each as
/// its chars (with a space after every word but the last) and the style each is drawn in,
/// given what was typed, where the cursor is, and which words are wrong (one flag per
/// position).
pub fn typing_text(
    text: &str,
    word_positions: &[WordPosition],
    user_input: &[Option<char>],
    cursor_pos: usize,
    word_wrong: &[bool],
) -> (r: Vec<Vec<(char, CharStyle)>>)
    requires
        word_wrong@.len() == word_positions@.len(),
        word_positions@.len() <= words_of(text@).len(),
        forall|i: int|
            0 <= i < word_positions@.len() ==> (#[trigger] word_positions@[i]).start_index
                + words_of(text@)[i].len() <= usize::MAX,
    ensures
        r@.map_values(|l: Vec<(char, CharStyle)>| l@) == typing_text_spec(
            text@,
            word_positions@,
            user_input@,
            word_wrong@,
            cursor_pos as int,
        ),
{
    let chars = chars_of(text);
    let spans = word_spans_of(&chars);
    let ghost sp = spans@.map_values(|p: (usize, usize)| span_to_int(p));
    let ghost words = words_of(text@);
    let ghost tx = text@;
    let ghost pos = word_positions@;
    let ghost inp = user_input@;
    let ghost wr = word_wrong@;
    let ghost cur_i = cursor_pos as int;
    assert(words.len() == sp.len());
    let mut lines: Vec<Vec<(char, CharStyle)>> = Vec::new();
    let mut current_line: usize = 0;
    let mut cur: Vec<(char, CharStyle)> = Vec::new();
    let mut i: usize = 0;
    while i < word_positions.len()
        invariant
            chars@ == tx,
            tx == text@,
            sp == spans@.map_values(|p: (usize, usize)| span_to_int(p)),
            sp == word_spans(tx),
            words == words_of(tx),
            words.len() == sp.len(),
            pos == word_positions@,
            pos.len() <= words.len(),
            inp == user_input@,
            wr == word_wrong@,
            wr.len() == pos.len(),
            cur_i == cursor_pos as int,
            forall|j: int| 0 <= j < sp.len() ==> 0 <= #[trigger] sp[j].0 < sp[j].1 <= tx.len(),
            forall|j: int|
                0 <= j < pos.len() ==> (#[trigger] pos[j]).start_index + words[j].len() <= usize::MAX,
            i <= pos.len(),
            (lines@.map_values(|l: Vec<(char, CharStyle)>| l@), current_line as int, cur@)
                == text_lines_state(i as nat, tx, pos, inp, wr, cur_i),
        decreases pos.len() - i,
    {
        let line = word_positions[i].line;
        let start = word_positions[i].start_index;
        if line > current_line {
            let ghost old_lines = lines@.map_values(|l: Vec<(char, CharStyle)>| l@);
            let ghost old_cur = cur@;
            lines.push(cur);
            assert(lines@.map_values(|l: Vec<(char, CharStyle)>| l@) =~= old_lines.push(old_cur));
            cur = Vec::new();
            current_line = line;
        }
        let (s, e) = spans[i];
        assert(sp[i as int] == (s as int, e as int));
        let ghost w = words[i as int];
        let mut word: Vec<char> = Vec::new();
        let mut k = s;
        while k < e
            invariant
                chars@ == tx,
                s <= k <= e,
                e <= tx.len(),
                word@ == tx.subrange(s as int, k as int),
            decreases e - k,
        {
            word.push(chars[k]);
            assert(tx.subrange(s as int, k + 1) =~= tx.subrange(s as int, k as int).push(tx[k as int]));
            k += 1;
        }
        assert(word@ == w);
        assert(pos[i as int].start_index + w.len() <= usize::MAX);
        let word_len = word.len();
        let is_current = cursor_pos >= start && cursor_pos <= start + word_len;
        let is_wrong_word = !is_current && word_wrong[i];
        let ghost body = Seq::new(
            w.len(),
            |j: int| (w[j], word_char_style(inp, start + j, w[j], is_current, is_wrong_word)),
        );
        let ghost before = cur@;
        let mut j: usize = 0;
        while j < word.len()
            invariant
                word@ == w,
                inp == user_input@,
                body == Seq::new(
                    w.len(),
                    |j: int| (w[j], word_char_style(inp, start + j, w[j], is_current, is_wrong_word)),
                ),
                start + w.len() <= usize::MAX,
                j <= word@.len(),
                cur@ == before + body.take(j as int),
            decreases word.len() - j,
        {
            let c = word[j];
            let idx = start + j;
            let style = if idx < user_input.len() {
                match user_input[idx] {
                    Some(t) => if t == c {
                        if is_wrong_word {
                            CharStyle::UnderlinedSuccess
                        } else {
                            CharStyle::Success
                        }
                    } else if !is_current {
                        CharStyle::UnderlinedError
                    } else {
                        CharStyle::Error
                    },
                    None => CharStyle::Pending,
                }
            } else {
                CharStyle::Pending
            };
            cur.push((c, style));
            assert(body.take(j + 1) =~= body.take(j as int).push(body[j as int]));
            j += 1;
        }
        assert(body.take(j as int) =~= body);
        if i < word_positions.len() - 1 {
            cur.push((' ', CharStyle::Separator));
        }
        assert(cur@ =~= before + word_cells3(i as int, tx, pos, inp, wr, cur_i));
        i += 1;
    }
    if cur.len() > 0 {
        let ghost old_lines = lines@.map_values(|l: Vec<(char, CharStyle)>| l@);
        let ghost old_cur = cur@;
        lines.push(cur);
        assert(lines@.map_values(|l: Vec<(char, CharStyle)>| l@) =~= old_lines.push(old_cur));
    }
    lines
}

/// The last word starting at or before `cursor`; the first word when none does.
pub open spec fn current_word(positions: Seq<WordPosition>, cursor: int) -> int
    decreases positions.len(),
{
    if positions.len() == 0 {
        0
    } else if positions.last().start_index <= cursor {
        positions.len() - 1
    } else {
        current_word(positions.drop_last(), cursor)
    }
}

/// The word the cursor is in (see `current_word`), found from the last word back.
pub fn current_word_index(word_positions: &[WordPosition], cursor: usize) -> (r: usize)
    requires
        word_positions@.len() > 0,
    ensures
        r == current_word(word_positions@, cursor as int),
        r < word_positions@.len(),
{
    let mut i = word_positions.len();
    assert(word_positions@.take(i as int) =~= word_positions@);
    while i > 0
        invariant
            i <= word_positions@.len(),
            word_positions@.len() > 0,
            current_word(word_positions@, cursor as int) == current_word(
                word_positions@.take(i as int),
                cursor as int,
            ),
        decreases i,
    {
        assert(word_positions@.take(i as int).drop_last() =~= word_positions@.take(i - 1));
        if word_positions[i - 1].start_index <= cursor {
            return i - 1;
        }
        i -= 1;
    }
    0
}

/// Where the typing text is drawn in `area` with `visible_lines` lines shown: the middle
/// of three columns (a quarter, a half, a quarter, as ratatui's layout solver divides it)
/// of the area made that many rows tall (see `centered_part`).
pub fn typing_content_area(area: Rect, visible_lines: u16) -> (r: Rect)
    ensures
        r == crate::ui::utils::centered_part(
            Rect { x: area.x, y: area.y, width: area.width, height: visible_lines },
            50,
        ),
{
    let sized = Rect { x: area.x, y: area.y, width: area.width, height: visible_lines };
    let columns = vec![
        Constraint::Percentage(25),
        Constraint::Percentage(50),
        Constraint::Percentage(25),
    ];
    assert(columns@ =~= crate::ui::utils::centering_constraints(50));
    let parts = split_area(Direction::Horizontal, &columns, sized);
    proof {
        crate::ui::utils::lemma_centering_exact(Direction::Horizontal, sized, 25, 50);
        assert(parts@[1] == crate::geometry::exact_part(Direction::Horizontal, columns@, sized, 1));
    }
    parts[1]
}

/// The lines shown of `line_total` lines, `visible` at a time, for the cursor on line
/// `cursor_line`: from the cursor's line less all but two of the shown lines, to at most
/// the last line.
pub fn visible_window(cursor_line: usize, visible: usize, line_total: usize) -> (r: (usize, usize))
    requires
        cursor_line + visible <= usize::MAX,
    ensures
        ({
            let keep = if visible >= 2 { visible - 2 } else { 0 };
            let start = if cursor_line >= keep { cursor_line - keep } else { 0 };
            let end = if start + visible < line_total { start + visible } else { line_total as int };
            r == (start as usize, end as usize)
        }),
{
    let scroll_offset = cursor_line.saturating_sub(visible.saturating_sub(2));
    let end = if scroll_offset + visible < line_total {
        scroll_offset + visible
    } else {
        line_total
    };
    (scroll_offset, end)
}

/// The cell of the cursor at char `cursor` in its word `word`, drawn in `content` from line
/// `scroll_offset`: the word's column plus the cursor's offset in it, and the word's line
/// below the first line shown.
pub fn typing_cursor_cell(word: &WordPosition, cursor: usize, scroll_offset: usize, content: Rect) -> (r: Position)
    requires
        cursor >= word.start_index,
        word.col + (cursor - word.start_index) <= usize::MAX,
        content.x + ((word.col + (cursor - word.start_index)) as usize as u16) <= u16::MAX,
        content.y + ((if word.line >= scroll_offset { word.line - scroll_offset } else { 0 }) as usize as u16)
            <= u16::MAX,
    ensures
        r == (Position {
            x: (content.x + ((word.col + (cursor - word.start_index)) as usize as u16)) as u16,
            y: (content.y + ((if word.line >= scroll_offset { word.line - scroll_offset } else { 0 })
                as usize as u16)) as u16,
        }),
{
    let offset = cursor - word.start_index;
    let x = content.x + (word.col + offset) as u16;
    let y = content.y + word.line.saturating_sub(scroll_offset) as u16;
    Position { x, y }
}

} // verus!
