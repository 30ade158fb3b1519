//! Word placement on the typing area, and centering of boxes.

use vstd::prelude::*;
use crate::geometry::{
    axis_len, boundary, exact_part, min_count, round_cells, share, solvable_exactly, split_area,
    total_demand, Constraint, Direction, Rect,
};
use crate::text::{chars_of, span_to_int, word_spans, word_spans_of};

verus! {

/// Where a word of the text stands on the typing area.
#[derive(Debug, Clone, Copy)]
pub struct WordPosition {
    /// The word's offset in the text, counted in chars, assuming words one space apart.
    pub start_index: usize,
    /// The line the word is placed on.
    pub line: usize,
    /// The column the word begins at.
    pub col: usize,
}

impl WordPosition {
    pub open spec fn as_tuple(self) -> (int, int, int) {
        (self.start_index as int, self.line as int, self.col as int)
    }
}

/// The lengths of the words of `s`.
pub open spec fn word_lengths(s: Seq<char>) -> Seq<int> {
    word_spans(s).map_values(|p: (int, int)| p.1 - p.0)
}

/// Placement state before a word: (line, column, offset).
/// The word goes to the next line when the column is not 0 and the word, or even its
/// separating space, would reach the right edge.
pub open spec fn place_word(st: (int, int, int), len: int, width: int) -> (int, int, int) {
    let (line, col, index) = st;
    let (line1, col1) = if col > 0 && (col + len >= width || col + 1 >= width) {
        (line + 1, 0int)
    } else {
        (line, col)
    };
    let (line2, col2) = if len >= width && col1 > 0 {
        (line1 + 1, 0int)
    } else {
        (line1, col1)
    };
    (line2, col2, index)
}

/// The state after a placed word: offset and column advance by the word and one space,
/// and a column that reaches the width moves on to the next line.
pub open spec fn advance_word(st: (int, int, int), len: int, width: int) -> (int, int, int) {
    let (line, col, index) = place_word(st, len, width);
    let index2 = index + len + 1;
    let col2 = col + len + 1;
    if col2 >= width {
        (line + 1, 0int, index2)
    } else {
        (line, col2, index2)
    }
}

/// The state after placing words of the given lengths.
pub open spec fn state_after(lens: Seq<int>, width: int) -> (int, int, int)
    decreases lens.len(),
{
    if lens.len() == 0 {
        (0, 0, 0)
    } else {
        advance_word(state_after(lens.drop_last(), width), lens.last(), width)
    }
}

/// The (offset, line, column) of each word when words of the given lengths are placed in
/// an area `width` columns wide.
pub open spec fn placements(lens: Seq<int>, width: int) -> Seq<(int, int, int)>
    decreases lens.len(),
{
    if lens.len() == 0 {
        seq![]
    } else {
        let (line, col, index) = place_word(
            state_after(lens.drop_last(), width),
            lens.last(),
            width,
        );
        placements(lens.drop_last(), width).push((index, line, col))
    }
}

/// The positions of the words of `text` in an area `width` columns wide; none for an
/// empty text or a zero width.
pub open spec fn word_positions_spec(text: Seq<char>, width: int) -> Seq<(int, int, int)> {
    if text.len() == 0 || width == 0 {
        seq![]
    } else {
        placements(word_lengths(text), width)
    }
}

/// Places the words of `text` line by line in an area `available_width` columns wide.
pub fn calculate_word_positions(text: &str, available_width: usize) -> (r: Vec<WordPosition>)
    requires
        text@.len() < usize::MAX,
    ensures
        r@.map_values(|p: WordPosition| p.as_tuple()) == word_positions_spec(
            text@,
            available_width as int,
        ),
{
    let chars = chars_of(text);
    if chars.len() == 0 || available_width == 0 {
        let r: Vec<WordPosition> = Vec::new();
        assert(r@.map_values(|p: WordPosition| p.as_tuple()) =~= Seq::<(int, int, int)>::empty());
        return r;
    }
    let spans = word_spans_of(&chars);
    let ghost sp = spans@.map_values(|p: (usize, usize)| span_to_int(p));
    let ghost lens = word_lengths(text@);
    let ghost w = available_width as int;
    assert(lens.len() == sp.len());
    assert forall|j: int| 0 <= j < sp.len() - 1 implies #[trigger] sp[j].1 < sp[j + 1].0 by {
        assert(sp[j].1 < sp[j + 1].0);
    }
    let mut positions: Vec<WordPosition> = Vec::with_capacity(spans.len());
    let mut current_line: usize = 0;
    let mut current_col: usize = 0;
    let mut current_index: usize = 0;
    let mut k: usize = 0;
    while k < spans.len()
        invariant
            chars@ == text@,
            chars@.len() < usize::MAX,
            available_width > 0,
            w == available_width as int,
            sp == spans@.map_values(|p: (usize, usize)| span_to_int(p)),
            lens.len() == sp.len(),
            forall|j: int| 0 <= j < sp.len() ==> lens[j] == #[trigger] sp[j].1 - sp[j].0,
            forall|j: int| 0 <= j < sp.len() ==> 0 <= #[trigger] sp[j].0 < sp[j].1 <= chars@.len(),
            forall|j: int| 0 <= j < sp.len() - 1 ==> #[trigger] sp[j].1 < sp[j + 1].0,
            k <= spans.len(),
            (current_line as int, current_col as int, current_index as int) == state_after(
                lens.take(k as int),
                w,
            ),
            positions@.map_values(|p: WordPosition| p.as_tuple()) == placements(
                lens.take(k as int),
                w,
            ),
            current_line <= current_index,
            current_col <= current_index,
            k < spans.len() ==> current_index <= sp[k as int].0,
            k == spans.len() ==> current_index <= chars@.len() + 1,
        decreases spans.len() - k,
    {
        let (s, e) = spans[k];
        let word_len = e - s;
        assert(lens[k as int] == word_len as int);
        assert(lens.take(k + 1).drop_last() =~= lens.take(k as int));
        assert(lens.take(k + 1).last() == word_len as int);
        if current_col > 0 && (current_col + word_len >= available_width || current_col + 1
            >= available_width) {
            current_line += 1;
            current_col = 0;
        }
        if word_len >= available_width && current_col > 0 {
            current_line += 1;
            current_col = 0;
        }
        let ghost pos = WordPosition {
            start_index: current_index,
            line: current_line,
            col: current_col,
        };
        positions.push(
            WordPosition { start_index: current_index, line: current_line, col: current_col },
        );
        assert(positions@.map_values(|p: WordPosition| p.as_tuple()) =~= placements(
            lens.take(k as int),
            w,
        ).push(pos.as_tuple()));
        current_index += word_len + 1;
        current_col += word_len + 1;
        if current_col >= available_width {
            current_line += 1;
            current_col = 0;
        }
        k += 1;
    }
    assert(lens.take(k as int) =~= lens);
    assert(lens == word_lengths(text@));
    positions
}

/// Shape of a placement: one position per word; each word begins a line or ends before the
/// right edge with room for the space after it; offsets strictly increase and lines never
/// decrease from one word to the next.
pub proof fn lemma_placements_shape(lens: Seq<int>, width: int)
    requires
        width > 0,
        forall|i: int| 0 <= i < lens.len() ==> lens[i] >= 1,
    ensures
        placements(lens, width).len() == lens.len(),
        forall|k: int|
            0 <= k < lens.len() ==> #[trigger] placements(lens, width)[k].2 == 0
                || placements(lens, width)[k].2 + lens[k] < width,
        forall|j: int, k: int|
            0 <= j < k < lens.len() ==> #[trigger] placements(lens, width)[j].0 < #[trigger] placements(
                lens,
                width,
            )[k].0 && placements(lens, width)[j].1 <= placements(lens, width)[k].1,
        forall|k: int|
            0 <= k < lens.len() ==> #[trigger] placements(lens, width)[k].0 < state_after(
                lens,
                width,
            ).2 && placements(lens, width)[k].1 <= state_after(lens, width).0,
        state_after(lens, width).1 >= 0,
        state_after(lens, width).2 >= 0,
        forall|k: int| 0 <= k < lens.len() ==> #[trigger] placements(lens, width)[k].2 >= 0,
    decreases lens.len(),
{
    if lens.len() > 0 {
        let prefix = lens.drop_last();
        lemma_placements_shape(prefix, width);
        let p = placements(lens, width);
        let pp = placements(prefix, width);
        assert forall|k: int| 0 <= k < prefix.len() implies p[k] == pp[k] && lens[k] == prefix[k] by {}
    }
}

/// Law: every word of `text` gets a position; each word begins a line or ends before the
/// right edge; offsets strictly increase and lines never decrease along the text.
pub proof fn lemma_word_positions_shape(text: Seq<char>, width: int)
    requires
        width > 0,
    ensures
        ({
            let p = word_positions_spec(text, width);
            let lens = word_lengths(text);
            &&& p.len() == lens.len()
            &&& forall|k: int| 0 <= k < p.len() ==> #[trigger] p[k].2 == 0 || p[k].2 + lens[k] < width
            &&& forall|j: int, k: int|
                0 <= j < k < p.len() ==> #[trigger] p[j].0 < #[trigger] p[k].0 && p[j].1 <= p[k].1
        }),
{
    crate::text::lemma_word_spans_nonempty(text);
    let lens = word_lengths(text);
    assert forall|i: int| 0 <= i < lens.len() implies lens[i] >= 1 by {
        assert(word_spans(text)[i].0 < word_spans(text)[i].1);
    }
    lemma_placements_shape(lens, width);
    if text.len() == 0 {
        assert(word_spans(text) =~= Seq::<(int, int)>::empty());
    }
}

/// The constraints of a horizontal split into a middle part `width_percent` wide between
/// two equal margins.
pub open spec fn centering_constraints(width_percent: u16) -> Seq<Constraint> {
    let padding = ((100 - width_percent) / 2) as u16;
    seq![
        Constraint::Percentage(padding),
        Constraint::Percentage(width_percent),
        Constraint::Percentage(padding),
    ]
}

/// The middle of three parts of `along` cells split into `pad`%, `mid`% and `pad`%: from
/// the rounded boundary after the first margin to the one after the middle (see
/// `round_cells`), as a start and a length.
pub open spec fn middle_span(along: int, pad: int, mid: int) -> (int, int) {
    let s = round_cells(pad * along);
    let e = round_cells((pad + mid) * along);
    (s, e - s)
}

/// The middle part of `area` split horizontally into margins and a part `width_percent`
/// percent wide (see `middle_span`).
pub open spec fn centered_part(area: Rect, width_percent: u16) -> Rect {
    let pad = (100 - width_percent) / 2;
    let (s, w) = middle_span(axis_len(Direction::Horizontal, area), pad, width_percent as int);
    Rect { x: (area.x + s) as u16, y: area.y, width: w as u16, height: area.height }
}

/// The middle row of `area` split vertically into margins and a part `height_percent`
/// percent tall (see `middle_span`).
pub open spec fn centered_row(area: Rect, height_percent: u16) -> Rect {
    let pad = (100 - height_percent) / 2;
    let (s, h) = middle_span(axis_len(Direction::Vertical, area), pad, height_percent as int);
    Rect { x: area.x, y: (area.y + s) as u16, width: area.width, height: h as u16 }
}

/// The constraints `[pad%, mid%, pad%]` with `2 * pad + mid <= 100` are solvable exactly on
/// any axis, and their middle part is the one `middle_span` gives.
pub proof fn lemma_centering_exact(direction: Direction, area: Rect, pad: u16, mid: u16)
    requires
        2 * pad + mid <= 100,
    ensures
        ({
            let cs = seq![Constraint::Percentage(pad), Constraint::Percentage(mid), Constraint::Percentage(pad)];
            let len = axis_len(direction, area);
            let (s, w) = middle_span(len, pad as int, mid as int);
            &&& solvable_exactly(cs, len)
            &&& exact_part(direction, cs, area, 1).x == (match direction {
                Direction::Horizontal => (area.x + s) as u16,
                Direction::Vertical => area.x,
            })
            &&& exact_part(direction, cs, area, 1).y == (match direction {
                Direction::Horizontal => area.y,
                Direction::Vertical => (area.y + s) as u16,
            })
            &&& exact_part(direction, cs, area, 1).width == (match direction {
                Direction::Horizontal => w as u16,
                Direction::Vertical => area.width,
            })
            &&& exact_part(direction, cs, area, 1).height == (match direction {
                Direction::Horizontal => area.height,
                Direction::Vertical => w as u16,
            })
        }),
{
    let cs = seq![Constraint::Percentage(pad), Constraint::Percentage(mid), Constraint::Percentage(pad)];
    let len = axis_len(direction, area);
    assert(len >= 0);
    let c1 = seq![Constraint::Percentage(pad)];
    let c0 = Seq::<Constraint>::empty();
    assert(c1.drop_last() =~= c0);
    assert(cs.drop_last().drop_last() =~= c1);
    assert(cs.drop_last() =~= seq![Constraint::Percentage(pad), Constraint::Percentage(mid)]);
    assert(total_demand(c0, len) == 0);
    assert(min_count(c0) == 0);
    assert(total_demand(c1, len) == pad * len);
    assert(total_demand(cs.drop_last(), len) == pad * len + mid * len);
    assert(total_demand(cs, len) == pad * len + mid * len + pad * len);
    assert(pad * len + mid * len + pad * len <= 100 * len) by (nonlinear_arith)
        requires
            2 * pad + mid <= 100,
            len >= 0,
    ;
    assert(min_count(cs.drop_last().drop_last()) == 0);
    assert(min_count(cs.drop_last()) == 0);
    assert(min_count(cs) == 0);
    assert(cs[0] == Constraint::Percentage(pad) && cs[1] == Constraint::Percentage(mid));
    assert(boundary(cs, len, 0) == 0);
    assert(share(cs, len, 0) == pad * len);
    assert(share(cs, len, 1) == mid * len);
    assert(boundary(cs, len, 1) == pad * len);
    assert(boundary(cs, len, 2) == pad * len + mid * len);
    assert((pad + mid) * len == pad * len + mid * len) by (nonlinear_arith);
}

/// The middle part of `area` when split horizontally by ratatui's layout solver into
/// margins and a part `width_percent` percent wide: where the solve is exact, as it always
/// is here, the part that `centered_part` gives.
pub fn apply_horizontal_centering(area: Rect, width_percent: u16) -> (r: Rect)
    requires
        width_percent <= 100,
    ensures
        r == centered_part(area, width_percent),
{
    let padding = (100 - width_percent) / 2;
    let constraints = vec![
        Constraint::Percentage(padding),
        Constraint::Percentage(width_percent),
        Constraint::Percentage(padding),
    ];
    assert(constraints@ =~= centering_constraints(width_percent));
    let parts = split_area(Direction::Horizontal, &constraints, area);
    proof {
        lemma_centering_exact(Direction::Horizontal, area, padding, width_percent);
        assert(parts@[1] == exact_part(Direction::Horizontal, constraints@, area, 1));
    }
    parts[1]
}

/// Centers a box of at most `width` by `height` cells in `parent`.
pub fn center_div(width: u16, height: u16, parent: Rect) -> (r: Rect)
    requires
        crate::ui::helpers::utils::center_div_fits(width, height, parent),
    ensures
        r == crate::ui::helpers::utils::center_div_spec(width, height, parent),
{
    crate::ui::helpers::utils::center_div(width, height, parent)
}

} // verus!
