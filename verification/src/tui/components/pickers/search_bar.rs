//! The search bar under the telescope picker.

use vstd::prelude::*;
use crate::geometry::{
    axis_len, block_inner, block_inner_spec, boundary, exact_part, lemma_round_whole, lemma_two_parts, min_count,
    round_cells, share, solvable_exactly, solved_split, split_area, total_demand, Constraint, Direction, Padding,
    Rect,
};

verus! {

/// The padding inside the search bar's borders: a column on each side.
pub open spec fn bar_padding() -> Padding {
    Padding { left: 1, right: 1, top: 0, bottom: 0 }
}

/// The search bar hung under the panel `overlay_area`: three rows as wide as the panel.
pub open spec fn search_bar_rect(overlay_area: Rect) -> Rect {
    Rect {
        x: overlay_area.x,
        y: (overlay_area.y + overlay_area.height) as u16,
        width: overlay_area.width,
        height: 3,
    }
}

/// Whether the search bar under `overlay_area` ends within `area`.
pub open spec fn search_bar_shows(overlay_area: Rect, area: Rect) -> bool {
    search_bar_rect(overlay_area).y + 3 <= area.y + area.height
}

/// The columns of a search line: the query side (75%) and the counter side (25%).
pub open spec fn quarter_columns() -> Seq<Constraint> {
    seq![Constraint::Percentage(75), Constraint::Percentage(25)]
}

/// The query side of the search line `row`: the first three quarters of its width,
/// rounded.
pub open spec fn query_side(row: Rect) -> Rect {
    let q = round_cells(75 * axis_len(Direction::Horizontal, row));
    Rect { x: row.x, y: row.y, width: q as u16, height: row.height }
}

/// The counter side of the search line `row`: the rest of its width after the query side.
pub open spec fn counter_side(row: Rect) -> Rect {
    let w = axis_len(Direction::Horizontal, row);
    let q = round_cells(75 * w);
    Rect { x: (row.x + q) as u16, y: row.y, width: (w - q) as u16, height: row.height }
}

/// The layout solver's split of a search line by `quarter_columns` is exact: the query
/// side, then the counter side.
pub proof fn lemma_quarter_split(row: Rect, parts: Seq<Rect>)
    requires
        solved_split(Direction::Horizontal, quarter_columns(), row, parts),
    ensures
        parts[0] == query_side(row),
        parts[1] == counter_side(row),
{
    let cs = quarter_columns();
    let len = axis_len(Direction::Horizontal, row);
    lemma_two_parts(cs[0], cs[1], len);
    assert(cs =~= seq![cs[0], cs[1]]);
    assert(share(cs, len, 0) == 75 * len);
    assert(share(cs, len, 1) == 25 * len);
    assert(total_demand(cs, len) == 100 * len);
    assert(min_count(cs) == 0);
    assert(solvable_exactly(cs, len));
    assert(boundary(cs, len, 1) == 75 * len);
    assert(boundary(cs, len, 2) == 100 * len);
    lemma_round_whole(0);
    lemma_round_whole(len);
    assert(parts[0] == exact_part(Direction::Horizontal, cs, row, 0));
    assert(parts[1] == exact_part(Direction::Horizontal, cs, row, 1));
}

/// Where the search bar goes: when it ends within `area` (see `search_bar_shows`), the bar
/// (see `search_bar_rect`) and the query and counter sides (see `query_side`,
/// `counter_side`) of the inside of its borders (a column of padding on each side) as
/// ratatui's layout solver divides it; else `None`.
pub fn bottom_bar_areas(overlay_area: Rect, area: Rect) -> (r: Option<(Rect, Rect, Rect)>)
    requires
        overlay_area.y + overlay_area.height + 3 <= u16::MAX,
        area.fits(),
    ensures
        match r {
            Some((bar, query, counter)) => {
                let inner = block_inner_spec(bar, bar_padding());
                &&& search_bar_shows(overlay_area, area)
                &&& bar == search_bar_rect(overlay_area)
                &&& query == query_side(inner)
                &&& counter == counter_side(inner)
            },
            None => !search_bar_shows(overlay_area, area),
        },
{
    let bar_height: u16 = 3;
    let bar_area = Rect {
        x: overlay_area.x,
        y: overlay_area.y + overlay_area.height,
        width: overlay_area.width,
        height: bar_height,
    };
    if bar_area.y + bar_area.height <= area.y + area.height {
        let inner = block_inner(bar_area, Padding { left: 1, right: 1, top: 0, bottom: 0 });
        let cols = vec![Constraint::Percentage(75), Constraint::Percentage(25)];
        assert(cols@ =~= quarter_columns());
        let sections = split_area(Direction::Horizontal, &cols, inner);
        proof {
            lemma_quarter_split(inner, sections@);
        }
        Some((bar_area, sections[0], sections[1]))
    } else {
        None
    }
}

/// Whether the cursor shows in the search bar while searching: not for the cursor picker
/// when its preview is hidden.
pub fn shows_search_cursor(is_cursor_menu: bool, has_visualizer: bool) -> (r: bool)
    ensures
        r == !(is_cursor_menu && !has_visualizer),
{
    !(is_cursor_menu && !has_visualizer)
}

} // verus!
