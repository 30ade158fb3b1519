//! The command palette's search line.

use vstd::prelude::*;
use crate::geometry::{
    axis_len, block_inner, block_inner_spec, boundary, exact_part, lemma_round_whole, lemma_three_parts,
    min_count, share, solvable_exactly, solved_split, split_area, total_demand, Constraint, Direction, Padding,
    Position, Rect,
};
use crate::tui::components::pickers::search_bar::{counter_side, lemma_quarter_split, query_side, quarter_columns};
use crate::tui::layout::{picker_overlay_area, picker_overlay_area_spec};
use crate::text::chars_of;

verus! {

/// The cursor cell after "> " and the query (of `qlen` chars, as a `u16`), pulled back to
/// two cells before the right edge when it would reach the last column.
pub open spec fn cursor_position_spec(left_area: Rect, qlen: u16) -> Position {
    let x = left_area.x + 2 + qlen;
    let last = left_area.x + (if left_area.width >= 1 { left_area.width - 1 } else { 0 });
    let back = left_area.x + (if left_area.width >= 2 { left_area.width - 2 } else { 0 });
    Position { x: (if x >= last { back } else { x }) as u16, y: left_area.y }
}

/// Where the terminal cursor goes while typing `query` in the search line `left_area`.
pub fn calculate_cursor_position(left_area: Rect, query: &str) -> (r: Position)
    requires
        left_area.x + 2 + (query@.len() as u16) <= u16::MAX,
        left_area.fits(),
    ensures
        r == cursor_position_spec(left_area, query@.len() as u16),
{
    let base_offset: u16 = 2;
    let qlen = chars_of(query).len() as u16;
    let mut x = left_area.x + base_offset + qlen;
    if x >= left_area.x + left_area.width.saturating_sub(1) {
        x = left_area.x + left_area.width.saturating_sub(2);
    }
    Position { x, y: left_area.y }
}

/// The total width of spans, counted in chars.
pub fn calculate_spans_width(spans: &[String]) -> (r: usize)
    requires
        spans_width_spec(spans@.map_values(|s: String| s@)) <= usize::MAX,
    ensures
        r == spans_width_spec(spans@.map_values(|s: String| s@)),
{
    let ghost all = spans@.map_values(|s: String| s@);
    let mut total: usize = 0;
    let mut i: usize = 0;
    while i < spans.len()
        invariant
            all == spans@.map_values(|s: String| s@),
            spans_width_spec(all) <= usize::MAX,
            i <= spans@.len(),
            total == spans_width_spec(all.take(i as int)),
        decreases spans.len() - i,
    {
        let n = chars_of(spans[i].as_str()).len();
        assert(all.take(i + 1).drop_last() =~= all.take(i as int));
        proof {
            lemma_spans_width_prefix(all, i + 1);
        }
        total += n;
        i += 1;
    }
    assert(all.take(i as int) =~= all);
    total
}

/// The sum of the char counts.
pub open spec fn spans_width_spec(spans: Seq<Seq<char>>) -> int
    decreases spans.len(),
{
    if spans.len() == 0 {
        0
    } else {
        spans_width_spec(spans.drop_last()) + spans.last().len()
    }
}

proof fn lemma_spans_width_prefix(spans: Seq<Seq<char>>, k: int)
    requires
        0 <= k <= spans.len(),
    ensures
        spans_width_spec(spans.take(k)) <= spans_width_spec(spans),
    decreases spans.len(),
{
    if k < spans.len() {
        assert(spans.drop_last().take(k) =~= spans.take(k));
        lemma_spans_width_prefix(spans.drop_last(), k);
    } else {
        assert(spans.take(k) =~= spans);
    }
}

/// Columns of spaces after an item's text: up to one column before the theme dots when the
/// item previews a theme (the selection bar bleeding through), else up to the row's end for
/// the selected item, else none.
pub fn spacer_width(available_width: usize, text_width: usize, preview_width: usize, is_selected: bool) -> (r: usize)
    ensures
        r == (if preview_width > 0 {
            let start = if available_width >= preview_width + 1 {
                available_width - preview_width - 1
            } else {
                0
            };
            if start >= text_width { start - text_width } else { 0 }
        } else if is_selected {
            if available_width >= text_width { available_width - text_width } else { 0 }
        } else {
            0
        }),
{
    if preview_width > 0 {
        let preview_start_pos = available_width.saturating_sub(preview_width).saturating_sub(1);
        preview_start_pos.saturating_sub(text_width)
    } else if is_selected {
        available_width.saturating_sub(text_width)
    } else {
        0
    }
}

/// Columns of selection bar that fill the selected row after its `current_width` columns.
pub fn fill_width(available_width: usize, current_width: usize, is_selected: bool) -> (r: usize)
    ensures
        r == (if is_selected && current_width < available_width {
            available_width - current_width
        } else {
            0
        }),
{
    if is_selected && current_width < available_width {
        available_width - current_width
    } else {
        0
    }
}

/// The counter on the search bar: the current item's number (one past its index) over the
/// number of items, "0/0" without items.
pub fn position_counter(current_index: usize, item_count: usize) -> (r: String)
    ensures
        r@ == crate::utils::decimal(
            (if item_count == 0 {
                0
            } else if current_index < usize::MAX {
                current_index + 1
            } else {
                usize::MAX as int
            }) as nat,
        ) + "/"@ + crate::utils::decimal(item_count as nat),
{
    let m = current_index.saturating_add(1);
    let shown = if item_count == 0 {
        0
    } else {
        m
    };
    let mut t = String::new();
    crate::utils::push_decimal(&mut t, shown as u128);
    t.append("/");
    crate::utils::push_decimal(&mut t, item_count as u128);
    t
}

/// The areas of the command palette.
#[derive(Debug, Clone, Copy)]
pub struct PaletteLayout {
    /// The whole palette, borders included.
    pub overlay_area: Rect,
    /// The query side of the search line.
    pub search_area: Rect,
    /// The counter side of the search line.
    pub counter_area: Rect,
    /// The rows of items.
    pub items_area: Rect,
    /// The columns an item's row may fill: the items' width less their right padding.
    pub available_width: usize,
}

/// The padding inside the palette's borders: a column on the left, a row on top.
pub open spec fn palette_padding() -> Padding {
    Padding { left: 1, right: 0, top: 1, bottom: 0 }
}

/// The rows inside the palette's borders and padding: the search line, a spacer row and
/// the items.
pub open spec fn palette_rows() -> Seq<Constraint> {
    seq![Constraint::Length(1), Constraint::Length(1), Constraint::Min(0)]
}

/// Whether `r` is the palette in `area`: the picker overlay; `rows` the rows ratatui's
/// layout solver divides the inside of its borders and padding into (`palette_rows`, see
/// `solved_split`), which where the inside has two rows are the search line at its top,
/// the spacer, and the items below; the query and counter sides of the search line (see
/// `query_side`, `counter_side`); the items the third row; and the columns an item's row
/// may fill, the items' width less one.
pub open spec fn palette_with_rows(area: Rect, rows: Seq<Rect>, r: PaletteLayout) -> bool {
    let overlay = picker_overlay_area_spec(area);
    let inner = block_inner_spec(overlay, palette_padding());
    let len = axis_len(Direction::Vertical, inner);
    &&& r.overlay_area == overlay
    &&& solved_split(Direction::Vertical, palette_rows(), inner, rows)
    &&& len >= 2 ==> rows[0] == Rect { x: inner.x, y: inner.y, width: inner.width, height: 1 } && rows[2]
        == Rect { x: inner.x, y: (inner.y + 2) as u16, width: inner.width, height: (len - 2) as u16 }
    &&& r.search_area == query_side(rows[0])
    &&& r.counter_area == counter_side(rows[0])
    &&& r.items_area == rows[2]
    &&& r.available_width == (if r.items_area.width >= 1 { r.items_area.width - 1 } else { 0 })
}

/// Where the inside has two rows, the palette's rows are solved exactly.
pub proof fn lemma_palette_rows(inner: Rect, rows: Seq<Rect>)
    requires
        solved_split(Direction::Vertical, palette_rows(), inner, rows),
        axis_len(Direction::Vertical, inner) >= 2,
    ensures
        rows[0] == (Rect { x: inner.x, y: inner.y, width: inner.width, height: 1 }),
        rows[2] == (Rect {
            x: inner.x,
            y: (inner.y + 2) as u16,
            width: inner.width,
            height: (axis_len(Direction::Vertical, inner) - 2) as u16,
        }),
{
    let cs = palette_rows();
    let len = axis_len(Direction::Vertical, inner);
    lemma_three_parts(cs[0], cs[1], cs[2], len);
    assert(cs =~= seq![cs[0], cs[1], cs[2]]);
    assert(total_demand(cs, len) == 200);
    assert(min_count(cs) == 1);
    assert(solvable_exactly(cs, len));
    crate::geometry::lemma_one_min_share(cs, len, 2);
    assert(share(cs, len, 2) == 100 * (len - 2));
    assert(boundary(cs, len, 1) == 100);
    assert(boundary(cs, len, 2) == 200);
    assert(boundary(cs, len, 3) == 100 * len);
    lemma_round_whole(0);
    lemma_round_whole(1);
    lemma_round_whole(2);
    lemma_round_whole(len);
    assert(rows[0] == exact_part(Direction::Vertical, cs, inner, 0));
    assert(rows[2] == exact_part(Direction::Vertical, cs, inner, 2));
}

/// Lays out the command palette in `area`: the search line, a spacer row and the items,
/// the search line split three quarters to one quarter (see `palette_with_rows`).
pub fn palette_layout(area: Rect) -> (r: PaletteLayout)
    ensures
        exists|rows: Seq<Rect>| #[trigger] palette_with_rows(area, rows, r),
{
    let overlay_area = picker_overlay_area(area);
    let inner_area = block_inner(overlay_area, Padding { left: 1, right: 0, top: 1, bottom: 0 });
    let rows_c = vec![Constraint::Length(1), Constraint::Length(1), Constraint::Min(0)];
    assert(rows_c@ =~= palette_rows());
    let rows = split_area(Direction::Vertical, &rows_c, inner_area);
    proof {
        if axis_len(Direction::Vertical, inner_area) >= 2 {
            lemma_palette_rows(inner_area, rows@);
        }
    }
    let search_bar_area = rows[0];
    let items_area = rows[2];
    let cols = vec![Constraint::Percentage(75), Constraint::Percentage(25)];
    assert(cols@ =~= quarter_columns());
    let sections = split_area(Direction::Horizontal, &cols, search_bar_area);
    proof {
        lemma_quarter_split(search_bar_area, sections@);
    }
    let padding = crate::tui::utils::menu_items_padding();
    let available_width = items_area.width.saturating_sub(padding.left).saturating_sub(
        padding.right,
    ) as usize;
    let r = PaletteLayout {
        overlay_area,
        search_area: sections[0],
        counter_area: sections[1],
        items_area,
        available_width,
    };
    assert(palette_with_rows(area, rows@, r));
    r
}

} // verus!
