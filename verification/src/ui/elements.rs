//! Building the screen's text: a pool of preallocated strings for spans, and the typing
//! area's visible lines.

use vstd::prelude::*;
use std::collections::VecDeque;
use crate::text::{chars_of, span_to_int, word_spans, word_spans_of, words_of};
use crate::ui::components::typing_area::{input_at, CharStyle};
use crate::ui::helpers::utils::WordPosition;

verus! {

/// Empty strings allocated ahead, handed out one at a time.
pub struct SpanPool {
    pool: VecDeque<String>,
}

impl SpanPool {
    /// The number of strings left in the pool.
    pub closed spec fn spec_len(self) -> nat {
        self.pool@.len()
    }

    /// Every string in the pool is empty.
    pub closed spec fn wf(self) -> bool {
        forall|i: int| 0 <= i < self.pool@.len() ==> (#[trigger] self.pool@[i])@.len() == 0
    }

    /// A pool of 1000 empty strings.
    pub fn new() -> (r: Self)
        ensures
            r.wf(),
            r.spec_len() == 1000,
    {
        let mut pool: VecDeque<String> = VecDeque::with_capacity(1000);
        let mut i: usize = 0;
        while i < 1000
            invariant
                i <= 1000,
                pool@.len() == i,
                forall|j: int| 0 <= j < pool@.len() ==> (#[trigger] pool@[j])@.len() == 0,
            decreases 1000 - i,
        {
            pool.push_back(String::new());
            i += 1;
        }
        SpanPool { pool }
    }
}

/// An empty string: taken from the pool while it has any, else freshly made.
pub fn get_pooled_string(pool: &mut SpanPool) -> (r: String)
    requires
        old(pool).wf(),
    ensures
        r@.len() == 0,
        final(pool).wf(),
        final(pool).spec_len() == (if old(pool).spec_len() > 0 {
            old(pool).spec_len() - 1
        } else {
            0
        }),
{
    match pool.pool.pop_front() {
        Some(s) => s,
        None => String::new(),
    }
}

/// The style of target char `c` at `idx`: pending before anything was typed there, then
/// right or wrong (a skipped char counts as wrong), underlined where the word is.
pub open spec fn typed_style(input: Seq<Option<char>>, idx: int, c: char, underline: bool) -> CharStyle {
    match input_at(input, idx) {
        None => CharStyle::Pending,
        Some(entry) => if entry == Some(c) {
            if underline {
                CharStyle::UnderlinedSuccess
            } else {
                CharStyle::Success
            }
        } else if underline {
            CharStyle::UnderlinedError
        } else {
            CharStyle::Error
        },
    }
}

/// The word placed at position `i`: the `i`-th word of the text, or nothing past the last.
pub open spec fn word_for(text: Seq<char>, i: int) -> Seq<char> {
    if i < words_of(text).len() {
        words_of(text)[i]
    } else {
        seq![]
    }
}

/// The cells of the word at position `i`: its chars with their styles (underlined when the
/// word is wrong, the cursor has passed it, and the theme can show it), then a plain space
/// when the next word stands on the same line.
pub open spec fn position_cells(
    i: int,
    text: Seq<char>,
    positions: Seq<WordPosition>,
    input: Seq<Option<char>>,
    wrong: Seq<bool>,
    cursor: int,
    supports_themes: bool,
) -> Seq<(char, CharStyle)> {
    let word = word_for(text, i);
    let start = positions[i].start_index as int;
    let underline = wrong[i] && cursor > start + word.len() && supports_themes;
    let body = Seq::new(
        word.len(),
        |j: int| (word[j], typed_style(input, start + j, word[j], underline)),
    );
    if i < words_of(text).len() - 1 && i + 1 < positions.len() && positions[i + 1].line
        == positions[i].line {
        body.push((' ', CharStyle::Plain))
    } else {
        body
    }
}

/// After the first `n` positions: the finished lines, the line being filled, its cells,
/// and whether the window was filled (which ends the scan). Moving down to a later line
/// finishes the current one, kept when it is visible and not empty.
pub open spec fn area_state(
    n: nat,
    text: Seq<char>,
    positions: Seq<WordPosition>,
    input: Seq<Option<char>>,
    wrong: Seq<bool>,
    cursor: int,
    supports_themes: bool,
    first: int,
    count: int,
) -> (Seq<Seq<(char, CharStyle)>>, int, Seq<(char, CharStyle)>, bool)
    decreases n,
{
    if n == 0 {
        (seq![], positions[0].line as int, seq![], false)
    } else {
        let (lines, line, cur, stopped) = area_state(
            (n - 1) as nat,
            text,
            positions,
            input,
            wrong,
            cursor,
            supports_themes,
            first,
            count,
        );
        let i = n - 1;
        let p = positions[i].line as int;
        if stopped {
            (lines, line, cur, true)
        } else {
            let visible = first <= line < first + count;
            let (lines1, line1, cur1, stop1) = if p > line {
                let l = if visible && cur.len() > 0 { lines.push(cur) } else { lines };
                (l, p, Seq::<(char, CharStyle)>::empty(), l.len() >= count)
            } else {
                (lines, line, cur, false)
            };
            if stop1 {
                (lines1, line1, cur1, true)
            } else if first <= p < first + count {
                (
                    lines1,
                    line1,
                    cur1 + position_cells(i, text, positions, input, wrong, cursor, supports_themes),
                    false,
                )
            } else {
                (lines1, line1, cur1, false)
            }
        }
    }
}

/// The visible lines of the typing area (see `area_state`): a single empty line without
/// positions.
pub open spec fn typing_area_spec(
    text: Seq<char>,
    positions: Seq<WordPosition>,
    input: Seq<Option<char>>,
    wrong: Seq<bool>,
    cursor: int,
    supports_themes: bool,
    first: int,
    count: int,
) -> Seq<Seq<(char, CharStyle)>> {
    if positions.len() == 0 {
        seq![seq![]]
    } else {
        let (lines, line, cur, stopped) = area_state(
            positions.len(),
            text,
            positions,
            input,
            wrong,
            cursor,
            supports_themes,
            first,
            count,
        );
        if cur.len() > 0 && first <= line < first + count && lines.len() < count {
            lines.push(cur)
        } else {
            lines
        }
    }
}

/// The style of target char `c` at `idx` (see `typed_style`).
fn typed_style_of(input: &[Option<char>], idx: usize, c: char, underline: bool) -> (r: CharStyle)
    ensures
        r == typed_style(input@, idx as int, c, underline),
{
    if idx >= input.len() {
        CharStyle::Pending
    } else if input[idx] == Some(c) {
        if underline {
            CharStyle::UnderlinedSuccess
        } else {
            CharStyle::Success
        }
    } else if underline {
        CharStyle::UnderlinedError
    } else {
        CharStyle::Error
    }
}

/// The visible lines of the typing area for `text` with its words at `word_positions`: the
/// `visible_line_count` lines from line `scroll_offset`, each as the chars of its words
/// (with spaces between the words of a line) and the style each is drawn in, given what was
/// typed, where the cursor is, and which words are wrong (one flag per position).
pub fn create_typing_area(
    text: &str,
    word_positions: &[WordPosition],
    user_input: &[Option<char>],
    cursor_pos: usize,
    word_wrong: &[bool],
    supports_themes: bool,
    scroll_offset: usize,
    visible_line_count: usize,
) -> (r: Vec<Vec<(char, CharStyle)>>)
    requires
        word_wrong@.len() == word_positions@.len(),
        scroll_offset + visible_line_count <= usize::MAX,
        word_positions@.len() > 0 ==> words_of(text@).len() > 0,
        forall|i: int|
            0 <= i < word_positions@.len() ==> (#[trigger] word_positions@[i]).start_index
                + word_for(text@, i).len() <= usize::MAX,
    ensures
        r@.map_values(|l: Vec<(char, CharStyle)>| l@) == typing_area_spec(
            text@,
            word_positions@,
            user_input@,
            word_wrong@,
            cursor_pos as int,
            supports_themes,
            scroll_offset as int,
            visible_line_count as int,
        ),
{
    if word_positions.len() == 0 {
        let r: Vec<Vec<(char, CharStyle)>> = vec![Vec::new()];
        assert(r@.map_values(|l: Vec<(char, CharStyle)>| l@) =~= seq![seq![]]);
        return r;
    }
    let chars = chars_of(text);
    let spans = word_spans_of(&chars);
    let ghost sp = spans@.map_values(|p: (usize, usize)| span_to_int(p));
    let ghost words = words_of(text@);
    let ghost tx = text@;
    let ghost pos = word_positions@;
    let ghost inp = user_input@;
    let ghost wr = word_wrong@;
    let ghost cur_i = cursor_pos as int;
    let ghost first_i = scroll_offset as int;
    let ghost count_i = visible_line_count as int;
    assert(words.len() == sp.len());
    let first = scroll_offset;
    let last = scroll_offset + visible_line_count;
    let mut lines: Vec<Vec<(char, CharStyle)>> = Vec::new();
    let mut cur_line = word_positions[0].line;
    let mut cur: Vec<(char, CharStyle)> = Vec::new();
    let mut stopped = false;
    let mut i: usize = 0;
    while i < word_positions.len() && !stopped
        invariant
            chars@ == tx,
            tx == text@,
            sp == spans@.map_values(|p: (usize, usize)| span_to_int(p)),
            sp == word_spans(tx),
            words == words_of(tx),
            words.len() == sp.len(),
            words.len() > 0,
            pos == word_positions@,
            inp == user_input@,
            wr == word_wrong@,
            wr.len() == pos.len(),
            pos.len() > 0,
            cur_i == cursor_pos as int,
            first_i == first as int,
            count_i == visible_line_count as int,
            last == first + visible_line_count,
            forall|j: int| 0 <= j < sp.len() ==> 0 <= #[trigger] sp[j].0 < sp[j].1 <= tx.len(),
            forall|j: int|
                0 <= j < pos.len() ==> (#[trigger] pos[j]).start_index + word_for(tx, j).len()
                    <= usize::MAX,
            i <= pos.len(),
            !stopped ==> (lines@.map_values(|l: Vec<(char, CharStyle)>| l@), cur_line as int, cur@, false)
                == area_state(i as nat, tx, pos, inp, wr, cur_i, supports_themes, first_i, count_i),
            stopped ==> (lines@.map_values(|l: Vec<(char, CharStyle)>| l@), cur_line as int, cur@, true)
                == area_state(pos.len(), tx, pos, inp, wr, cur_i, supports_themes, first_i, count_i),
        decreases pos.len() - i + (if stopped { 0int } else { 1int }),
    {
        let p = word_positions[i];
        let ghost old_lines = lines@.map_values(|l: Vec<(char, CharStyle)>| l@);
        let ghost old_cur = cur@;
        let ghost old_line = cur_line as int;
        if p.line > cur_line {
            if cur_line >= first && cur_line < last && cur.len() > 0 {
                lines.push(cur);
                assert(lines@.map_values(|l: Vec<(char, CharStyle)>| l@) =~= old_lines.push(old_cur));
            }
            cur = Vec::new();
            cur_line = p.line;
            if lines.len() >= visible_line_count {
                stopped = true;
            }
        }
        if stopped {
            proof {
                lemma_area_state_stays(
                    (i + 1) as nat,
                    pos.len(),
                    tx,
                    pos,
                    inp,
                    wr,
                    cur_i,
                    supports_themes,
                    first_i,
                    count_i,
                );
            }
        } else {
            if p.line >= first && p.line < last {
                let word: Vec<char> = if i < spans.len() {
                    let (s, e) = spans[i];
                    assert(sp[i as int] == (s as int, e as int));
                    let mut w: Vec<char> = Vec::new();
                    let mut k = s;
                    while k < e
                        invariant
                            chars@ == tx,
                            s <= k <= e,
                            e <= tx.len(),
                            w@ == tx.subrange(s as int, k as int),
                        decreases e - k,
                    {
                        w.push(chars[k]);
                        assert(tx.subrange(s as int, k + 1) =~= tx.subrange(s as int, k as int).push(
                            tx[k as int],
                        ));
                        k += 1;
                    }
                    w
                } else {
                    Vec::new()
                };
                assert(word@ =~= word_for(tx, i as int));
                let start = p.start_index;
                assert(pos[i as int].start_index + word_for(tx, i as int).len() <= usize::MAX);
                let word_len = word.len();
                let underline = word_wrong[i] && cursor_pos > start + word_len && supports_themes;
                let ghost w = word@;
                let ghost body = Seq::new(
                    w.len(),
                    |j: int| (w[j], typed_style(inp, start + j, w[j], underline)),
                );
                let ghost before = cur@;
                let mut j: usize = 0;
                while j < word.len()
                    invariant
                        word@ == w,
                        inp == user_input@,
                        body == Seq::new(
                            w.len(),
                            |j: int| (w[j], typed_style(inp, start + j, w[j], underline)),
                        ),
                        start + w.len() <= usize::MAX,
                        j <= word@.len(),
                        cur@ == before + body.take(j as int),
                    decreases word.len() - j,
                {
                    let c = word[j];
                    let style = typed_style_of(user_input, start + j, c, underline);
                    cur.push((c, style));
                    assert(body.take(j + 1) =~= body.take(j as int).push(body[j as int]));
                    j += 1;
                }
                assert(body.take(j as int) =~= body);
                if i < spans.len() - 1 && i + 1 < word_positions.len() && word_positions[i + 1].line
                    == p.line {
                    cur.push((' ', CharStyle::Plain));
                }
                assert(cur@ =~= before + position_cells(
                    i as int,
                    tx,
                    pos,
                    inp,
                    wr,
                    cur_i,
                    supports_themes,
                ));
            }
        }
        i += 1;
    }
    let ghost fin = area_state(pos.len(), tx, pos, inp, wr, cur_i, supports_themes, first_i, count_i);
    assert((lines@.map_values(|l: Vec<(char, CharStyle)>| l@), cur_line as int, cur@) == (
    fin.0, fin.1, fin.2));
    if cur.len() > 0 && cur_line >= first && cur_line < last && lines.len() < visible_line_count {
        let ghost old_lines = lines@.map_values(|l: Vec<(char, CharStyle)>| l@);
        let ghost old_cur = cur@;
        lines.push(cur);
        assert(lines@.map_values(|l: Vec<(char, CharStyle)>| l@) =~= old_lines.push(old_cur));
    }
    lines
}

/// Once the scan has stopped, later positions change nothing.
proof fn lemma_area_state_stays(
    m: nat,
    n: nat,
    text: Seq<char>,
    positions: Seq<WordPosition>,
    input: Seq<Option<char>>,
    wrong: Seq<bool>,
    cursor: int,
    supports_themes: bool,
    first: int,
    count: int,
)
    requires
        m <= n,
        area_state(m, text, positions, input, wrong, cursor, supports_themes, first, count).3,
    ensures
        area_state(n, text, positions, input, wrong, cursor, supports_themes, first, count) == area_state(
            m,
            text,
            positions,
            input,
            wrong,
            cursor,
            supports_themes,
            first,
            count,
        ),
    decreases n - m,
{
    if m < n {
        lemma_area_state_stays(m, (n - 1) as nat, text, positions, input, wrong, cursor, supports_themes, first, count);
    }
}

} // verus!
