//! The telescope picker: its panels, the search bar's place, and the text of its items.

use vstd::prelude::*;
use crate::geometry::{
    axis_len, boundary, bordered_inner, bordered_inner_spec, exact_part, lemma_round_whole, lemma_three_parts,
    lemma_two_parts, min_count, round_cells, sat_sub16, share, solvable_exactly, solved_split, split_area,
    total_demand, Constraint, Direction, Rect,
};
use crate::text::chars_of;
use crate::tui::layout::picker_should_use_full_area;

verus! {

/// The area the picker takes: the overlay alone, or with a preview, the overlay extended by
/// a three-row bar as far as the screen allows.
pub fn calculate_total_menu_area(overlay_area: Rect, screen_area: Rect, has_visualizer: bool) -> (r: Rect)
    requires
        has_visualizer ==> overlay_area.height + 3 <= u16::MAX,
    ensures
        !has_visualizer ==> r == overlay_area,
        has_visualizer ==> ({
            let room = if screen_area.height >= overlay_area.y {
                screen_area.height - overlay_area.y
            } else {
                0
            };
            let extended = if overlay_area.height + 3 < room { overlay_area.height + 3 } else { room };
            r == Rect {
                x: overlay_area.x,
                y: overlay_area.y,
                width: overlay_area.width,
                height: extended as u16,
            }
        }),
{
    if !has_visualizer {
        return overlay_area;
    }
    let bar_height: u16 = 3;
    let room = screen_area.height.saturating_sub(overlay_area.y);
    let extended_height = if overlay_area.height + bar_height < room {
        overlay_area.height + bar_height
    } else {
        room
    };
    Rect {
        x: overlay_area.x,
        y: overlay_area.y,
        width: overlay_area.width,
        height: extended_height,
    }
}

/// The area the picker takes (see `calculate_total_menu_area`).
pub open spec fn total_menu_area_spec(overlay_area: Rect, screen_area: Rect, has_visualizer: bool) -> Rect {
    if !has_visualizer {
        overlay_area
    } else {
        let room = sat_sub16(screen_area.height, overlay_area.y);
        let extended = if overlay_area.height + 3 < room { overlay_area.height + 3 } else { room };
        Rect {
            x: overlay_area.x,
            y: overlay_area.y,
            width: overlay_area.width,
            height: extended as u16,
        }
    }
}

/// The picker's panels in `area` for the overlay `overlay_area`, given the two panels
/// `first` and `last` that the layout solver gives: (inside of the items panel, inside of
/// the preview panel, the panel the search bar hangs from). Without a preview, one bordered
/// panel fills the overlay and the preview panel is empty. With one, a narrow overlay (at
/// most 75 columns) stacks the items (`first`) above the preview (`last`); a wider one puts
/// them side by side, the preview (`last`) reaching from the overlay's top three rows lower
/// than the overlay, as far as the screen allows.
pub open spec fn telescope_panels_from(
    area: Rect,
    overlay_area: Rect,
    has_visualizer: bool,
    first: Rect,
    last: Rect,
) -> (Rect, Rect, Rect) {
    if has_visualizer {
        if overlay_area.width <= 75 {
            (bordered_inner_spec(first), bordered_inner_spec(last), first)
        } else {
            let room = sat_sub16(area.height, overlay_area.y);
            let right = Rect {
                x: last.x,
                y: overlay_area.y,
                width: last.width,
                height: (if overlay_area.height + 3 < room { overlay_area.height + 3 } else { room }) as u16,
            };
            (bordered_inner_spec(first), bordered_inner_spec(right), first)
        }
    } else {
        (bordered_inner_spec(overlay_area), Rect { x: 0, y: 0, width: 0, height: 0 }, overlay_area)
    }
}

/// The rows of the items panel on a narrow overlay `overlay_height` rows tall: half of it,
/// less the search bar's three rows while searching.
pub open spec fn items_rows(overlay_height: u16, is_searching: bool) -> int {
    let half = overlay_height / 2;
    if is_searching { sat_sub16(half, 3) } else { half as int }
}

/// Where the preview panel starts on a narrow overlay, in rows from the picker's top: below
/// the items panel, and below the search bar while searching.
pub open spec fn preview_start(overlay_height: u16, is_searching: bool) -> int {
    if is_searching { items_rows(overlay_height, true) + 3 } else { items_rows(overlay_height, false) }
}

/// The rows of the picker's area on a narrow overlay: the items panel, the search bar while
/// searching, and the preview panel taking the rest.
pub open spec fn stacked_rows(overlay_height: u16, is_searching: bool) -> Seq<Constraint> {
    let items = Constraint::Length(items_rows(overlay_height, is_searching) as u16);
    if is_searching {
        seq![items, Constraint::Length(3), Constraint::Min(0)]
    } else {
        seq![items, Constraint::Min(0)]
    }
}

/// The columns of a wide overlay: the items panel (45%), nothing, and the preview (55%).
pub open spec fn side_by_side_columns() -> Seq<Constraint> {
    seq![Constraint::Percentage(45), Constraint::Length(0), Constraint::Percentage(55)]
}

/// Whether `r` are the picker's panels (see `telescope_panels_from`), `p` being the parts
/// ratatui's layout solver gives (see `solved_split`) with a preview, the items panel the
/// first and the preview the last: on a narrow overlay, the rows (`stacked_rows`) of the
/// picker's whole area (`total_menu_area_spec`), which where that area has the rows are the
/// items panel `items_rows` tall at its top and the preview from `preview_start` down; on a
/// wide one, the columns (`side_by_side_columns`) of the overlay, the items panel 45% of
/// its width (rounded) at its left and the preview the rest.
pub open spec fn telescope_with_parts(
    area: Rect,
    overlay_area: Rect,
    has_visualizer: bool,
    is_searching: bool,
    p: Seq<Rect>,
    r: (Rect, Rect, Rect),
) -> bool {
    let total = total_menu_area_spec(overlay_area, area, true);
    let len = axis_len(Direction::Vertical, total);
    let start = preview_start(overlay_area.height, is_searching);
    let width = axis_len(Direction::Horizontal, overlay_area);
    let left = round_cells(45 * width);
    &&& has_visualizer && overlay_area.width <= 75 ==> solved_split(
        Direction::Vertical,
        stacked_rows(overlay_area.height, is_searching),
        total,
        p,
    )
    &&& has_visualizer && overlay_area.width <= 75 && len >= start ==> p[0] == Rect {
        x: total.x,
        y: total.y,
        width: total.width,
        height: items_rows(overlay_area.height, is_searching) as u16,
    } && p.last() == Rect {
        x: total.x,
        y: (total.y + start) as u16,
        width: total.width,
        height: (len - start) as u16,
    }
    &&& has_visualizer && overlay_area.width > 75 ==> solved_split(
        Direction::Horizontal,
        side_by_side_columns(),
        overlay_area,
        p,
    )
    &&& has_visualizer && overlay_area.width > 75 ==> p[0] == Rect {
        x: overlay_area.x,
        y: overlay_area.y,
        width: left as u16,
        height: overlay_area.height,
    } && p.last() == Rect {
        x: (overlay_area.x + left) as u16,
        y: overlay_area.y,
        width: (width - left) as u16,
        height: overlay_area.height,
    }
    &&& p.len() >= 1
    &&& r == telescope_panels_from(area, overlay_area, has_visualizer, p[0], p.last())
}

/// Lays out the picker's panels (see `telescope_with_parts`).
pub fn telescope_panels(area: Rect, overlay_area: Rect, has_visualizer: bool, is_searching: bool) -> (r: (
    Rect,
    Rect,
    Rect,
))
    requires
        has_visualizer ==> overlay_area.height + 3 <= u16::MAX,
    ensures
        exists|p: Seq<Rect>| #[trigger] telescope_with_parts(area, overlay_area, has_visualizer, is_searching, p, r),
{
    let total_menu_area = calculate_total_menu_area(overlay_area, area, has_visualizer);
    if has_visualizer {
        if overlay_area.width <= 75 {
            let bar_height: u16 = 3;
            let half_top_len = overlay_area.height / 2;
            let constraints = if is_searching {
                let top_len = half_top_len.saturating_sub(bar_height);
                vec![Constraint::Length(top_len), Constraint::Length(bar_height), Constraint::Min(0)]
            } else {
                vec![Constraint::Length(half_top_len), Constraint::Min(0)]
            };
            assert(constraints@ =~= stacked_rows(overlay_area.height, is_searching));
            let rows = split_area(Direction::Vertical, &constraints, total_menu_area);
            proof {
                if axis_len(Direction::Vertical, total_menu_area) >= preview_start(overlay_area.height, is_searching) {
                    lemma_stacked_exact(total_menu_area, overlay_area.height, is_searching, rows@);
                }
            }
            let top_panel = rows[0];
            let bottom_panel_base = rows[rows.len() - 1];
            let r = (bordered_inner(top_panel), bordered_inner(bottom_panel_base), top_panel);
            assert(telescope_with_parts(area, overlay_area, has_visualizer, is_searching, rows@, r));
            r
        } else {
            let constraints = vec![
                Constraint::Percentage(45),
                Constraint::Length(0),
                Constraint::Percentage(55),
            ];
            assert(constraints@ =~= side_by_side_columns());
            let columns = split_area(Direction::Horizontal, &constraints, overlay_area);
            proof {
                lemma_side_by_side_exact(overlay_area, columns@);
            }
            let left_panel = columns[0];
            let right_panel_base = columns[2];
            let bar_height: u16 = 3;
            let room = area.height.saturating_sub(overlay_area.y);
            let right_panel = Rect {
                x: right_panel_base.x,
                y: overlay_area.y,
                width: right_panel_base.width,
                height: if overlay_area.height + bar_height < room {
                    overlay_area.height + bar_height
                } else {
                    room
                },
            };
            let r = (bordered_inner(left_panel), bordered_inner(right_panel), left_panel);
            assert(telescope_with_parts(area, overlay_area, has_visualizer, is_searching, columns@, r));
            r
        }
    } else {
        let r = (bordered_inner(overlay_area), Rect { x: 0, y: 0, width: 0, height: 0 }, overlay_area);
        assert(telescope_with_parts(area, overlay_area, has_visualizer, is_searching, seq![overlay_area], r));
        r
    }
}

/// On a narrow overlay, where the picker's area has the rows, its rows are solved exactly:
/// the items panel at the top, the preview from `preview_start` down.
pub proof fn lemma_stacked_exact(total: Rect, overlay_height: u16, is_searching: bool, p: Seq<Rect>)
    requires
        solved_split(Direction::Vertical, stacked_rows(overlay_height, is_searching), total, p),
        axis_len(Direction::Vertical, total) >= preview_start(overlay_height, is_searching),
    ensures
        ({
            let len = axis_len(Direction::Vertical, total);
            let start = preview_start(overlay_height, is_searching);
            &&& p[0] == Rect {
                x: total.x,
                y: total.y,
                width: total.width,
                height: items_rows(overlay_height, is_searching) as u16,
            }
            &&& p.last() == Rect {
                x: total.x,
                y: (total.y + start) as u16,
                width: total.width,
                height: (len - start) as u16,
            }
        }),
{
    let cs = stacked_rows(overlay_height, is_searching);
    let len = axis_len(Direction::Vertical, total);
    let items = items_rows(overlay_height, is_searching);
    let start = preview_start(overlay_height, is_searching);
    lemma_round_whole(0);
    lemma_round_whole(items);
    lemma_round_whole(start);
    lemma_round_whole(len);
    if is_searching {
        lemma_three_parts(cs[0], cs[1], cs[2], len);
        assert(cs =~= seq![cs[0], cs[1], cs[2]]);
        assert(total_demand(cs, len) == 100 * start);
        assert(min_count(cs) == 1);
        assert(solvable_exactly(cs, len));
        assert(boundary(cs, len, 1) == 100 * items);
        assert(boundary(cs, len, 2) == 100 * start);
        crate::geometry::lemma_one_min_share(cs, len, 2);
        assert(share(cs, len, 2) == 100 * (len - start));
        assert(boundary(cs, len, 3) == 100 * len);
        assert(p[0] == exact_part(Direction::Vertical, cs, total, 0));
        assert(p[2] == exact_part(Direction::Vertical, cs, total, 2));
    } else {
        lemma_two_parts(cs[0], cs[1], len);
        assert(cs =~= seq![cs[0], cs[1]]);
        assert(total_demand(cs, len) == 100 * start);
        assert(min_count(cs) == 1);
        assert(solvable_exactly(cs, len));
        crate::geometry::lemma_one_min_share(cs, len, 1);
        assert(boundary(cs, len, 1) == 100 * items);
        assert(boundary(cs, len, 2) == 100 * len);
        assert(p[0] == exact_part(Direction::Vertical, cs, total, 0));
        assert(p[1] == exact_part(Direction::Vertical, cs, total, 1));
    }
}

/// On a wide overlay the columns are solved exactly: 45% of the width (rounded) for the
/// items panel at the left, the rest for the preview.
pub proof fn lemma_side_by_side_exact(overlay_area: Rect, p: Seq<Rect>)
    requires
        solved_split(Direction::Horizontal, side_by_side_columns(), overlay_area, p),
    ensures
        ({
            let width = axis_len(Direction::Horizontal, overlay_area);
            let left = round_cells(45 * width);
            &&& p[0] == Rect { x: overlay_area.x, y: overlay_area.y, width: left as u16, height: overlay_area.height }
            &&& p.last() == Rect {
                x: (overlay_area.x + left) as u16,
                y: overlay_area.y,
                width: (width - left) as u16,
                height: overlay_area.height,
            }
        }),
{
    let cs = side_by_side_columns();
    let len = axis_len(Direction::Horizontal, overlay_area);
    lemma_three_parts(cs[0], cs[1], cs[2], len);
    assert(cs =~= seq![cs[0], cs[1], cs[2]]);
    assert(share(cs, len, 0) == 45 * len);
    assert(share(cs, len, 1) == 0);
    assert(share(cs, len, 2) == 55 * len);
    assert(total_demand(cs, len) == 100 * len);
    assert(min_count(cs) == 0);
    assert(solvable_exactly(cs, len));
    assert(boundary(cs, len, 1) == 45 * len);
    assert(boundary(cs, len, 2) == 45 * len);
    assert(boundary(cs, len, 3) == boundary(cs, len, 2) + share(cs, len, 2));
    assert(boundary(cs, len, 3) == 100 * len);
    lemma_round_whole(0);
    lemma_round_whole(len);
    assert(p[0] == exact_part(Direction::Horizontal, cs, overlay_area, 0));
    assert(p[2] == exact_part(Direction::Horizontal, cs, overlay_area, 2));
}

/// Whether the search bar shows under the picker: always on a wide overlay; on a narrow one
/// while searching, or when the picker fills the screen without a preview.
pub fn show_bottom_bar(area: Rect, overlay_area: Rect, is_searching: bool, has_visualizer: bool) -> (r: bool)
    ensures
        r == (!(overlay_area.width <= 75) || is_searching || ((area.height < 25 || area.width < 60)
            && !has_visualizer)),
{
    !(overlay_area.width <= 75) || is_searching || (picker_should_use_full_area(area)
        && !has_visualizer)
}

/// The mark before an item: a check box for a setting, else `>` on the selected item.
pub fn item_indicator(is_toggle: bool, enabled: bool, is_selected: bool) -> (r: &'static str)
    ensures
        r@ == (if is_toggle {
            if enabled { "[x]"@ } else { "[ ]"@ }
        } else if is_selected {
            ">"@
        } else {
            " "@
        }),
{
    if is_toggle {
        if enabled {
            "[x]"
        } else {
            "[ ]"
        }
    } else if is_selected {
        ">"
    } else {
        " "
    }
}

/// The text of an item: its mark, a space, and its label.
pub fn item_text(indicator: &str, label: &str) -> (r: String)
    ensures
        r@ == indicator@ + " "@ + label@,
{
    let mut t = indicator.to_owned();
    t.append(" ");
    t.append(label);
    t
}

/// The key of an information item: a space, then the key, left-aligned in `width` chars
/// (padded with spaces when shorter).
pub fn padded_key(key: &str, width: usize) -> (r: String)
    ensures
        r@ == " "@ + key@ + Seq::new(
            (if width > key@.len() { width - key@.len() } else { 0 }) as nat,
            |i: int| ' ',
        ),
{
    let mut t = " ".to_owned();
    t.append(key);
    let n = chars_of(key).len();
    let ghost base = t@;
    let mut i = n;
    while i < width
        invariant
            n == key@.len(),
            n <= i <= width || (n >= width && i == n),
            t@ == base + Seq::new((i - n) as nat, |j: int| ' '),
        decreases width - i,
    {
        proof {
            reveal_strlit(" ");
        }
        t.append(" ");
        assert(t@ =~= base + Seq::new((i + 1 - n) as nat, |j: int| ' '));
        i += 1;
    }
    assert(Seq::new((i - n) as nat, |j: int| ' ') =~= Seq::new(
        (if width > n { width - n } else { 0 }) as nat,
        |j: int| ' ',
    ));
    t
}

/// How an item's line is styled: reversed when selected (but for an information item),
/// dimmed when disabled or a setting that is off, in the success colour when a setting is on.
#[derive(Debug, Clone, Copy, PartialEq, Eq, Structural)]
pub struct ItemStyle {
    pub reversed: bool,
    pub dim: bool,
    pub success: bool,
}

/// The style of an item's line; `toggle` is the state of the setting it switches, if any.
pub fn item_style(is_selected: bool, is_info: bool, is_disabled: bool, toggle: Option<bool>) -> (r: ItemStyle)
    ensures
        r == (ItemStyle {
            reversed: is_selected && !is_info,
            dim: is_disabled || toggle == Some(false),
            success: toggle == Some(true),
        }),
{
    let (dim_toggle, success) = match toggle {
        Some(enabled) => (!enabled, enabled),
        None => (false, false),
    };
    ItemStyle { reversed: is_selected && !is_info, dim: is_disabled || dim_toggle, success }
}

/// The longest key of the information items, in bytes (`None` for items that are not
/// information items); 0 for a menu that is not informational.
pub open spec fn max_info_key_spec(is_informational: bool, keys: Seq<Option<Seq<char>>>) -> int
    decreases keys.len(),
{
    if !is_informational || keys.len() == 0 {
        0
    } else {
        let rest = max_info_key_spec(is_informational, keys.drop_last());
        match keys.last() {
            Some(k) => if (vstd::utf8::encode_utf8(k).len() as usize) > rest {
                (vstd::utf8::encode_utf8(k).len() as usize) as int
            } else {
                rest
            },
            None => rest,
        }
    }
}

/// The width the keys of an informational menu are padded to (see `max_info_key_spec`).
pub fn max_info_key_len(is_informational: bool, keys: &[Option<String>]) -> (r: usize)
    ensures
        r == max_info_key_spec(is_informational, keys@.map_values(|k: Option<String>| match k {
            Some(s) => Some(s@),
            None => None,
        })),
{
    let ghost ks = keys@.map_values(|k: Option<String>| match k {
        Some(s) => Some(s@),
        None => None,
    });
    if !is_informational {
        return 0;
    }
    let mut best: usize = 0;
    let mut i: usize = 0;
    while i < keys.len()
        invariant
            is_informational,
            ks == keys@.map_values(|k: Option<String>| match k {
                Some(s) => Some(s@),
                None => None,
            }),
            i <= keys@.len(),
            best == max_info_key_spec(is_informational, ks.take(i as int)),
        decreases keys.len() - i,
    {
        assert(ks.take(i + 1).drop_last() =~= ks.take(i as int));
        match &keys[i] {
            Some(k) => {
                let key_text = k.as_str();
                let n = key_text.len();
                assert(key_text@ == k@);
                if n > best {
                    best = n;
                }
            },
            None => {},
        }
        i += 1;
    }
    assert(ks.take(i as int) =~= ks);
    best
}

} // verus!
