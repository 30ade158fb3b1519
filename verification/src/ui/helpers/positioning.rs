//! Placement of boxes, text and clickable regions within an area.

use vstd::prelude::*;
use crate::geometry::{Alignment, Rect};

verus! {

pub open spec fn min16(a: u16, b: u16) -> u16 {
    if a < b {
        a
    } else {
        b
    }
}

/// `a - b`, or 0 when `b` is larger.
pub open spec fn sat_sub(a: u16, b: u16) -> int {
    if a >= b {
        a - b
    } else {
        0
    }
}

pub struct LayoutHelper;

impl LayoutHelper {
    /// Centers a box of at most `width` by `height` cells in `parent`.
    pub fn center_div(width: u16, height: u16, parent: Rect) -> (r: Rect)
        requires
            crate::ui::helpers::utils::center_div_fits(width, height, parent),
        ensures
            r == crate::ui::helpers::utils::center_div_spec(width, height, parent),
    {
        crate::ui::helpers::utils::center_div(width, height, parent)
    }

    /// Centers a `width` by `height` box in `area`; the box is cut to the area's size, but
    /// its corner is computed from the uncut size.
    pub fn center_rect(area: Rect, width: u16, height: u16) -> (r: Rect)
        requires
            area.x + sat_sub(area.width, width) / 2 <= u16::MAX,
            area.y + sat_sub(area.height, height) / 2 <= u16::MAX,
        ensures
            r.x == area.x + sat_sub(area.width, width) / 2,
            r.y == area.y + sat_sub(area.height, height) / 2,
            r.width == min16(width, area.width),
            r.height == min16(height, area.height),
    {
        let x = area.x + area.width.saturating_sub(width) / 2;
        let y = area.y + area.height.saturating_sub(height) / 2;
        Rect {
            x,
            y,
            width: if width < area.width {
                width
            } else {
                area.width
            },
            height: if height < area.height {
                height
            } else {
                area.height
            },
        }
    }

    /// Moves `area` down so that text of `text_height` lines stands vertically centered.
    pub fn center_text_rect(area: Rect, text_height: usize) -> (r: Rect)
        requires
            area.y + sat_sub(area.height, text_height as u16) / 2 <= u16::MAX,
        ensures
            r.x == area.x,
            r.y == area.y + sat_sub(area.height, text_height as u16) / 2,
            r.width == area.width,
            r.height == area.height,
    {
        let text_height = text_height as u16;
        Rect {
            x: area.x,
            y: area.y + area.height.saturating_sub(text_height) / 2,
            width: area.width,
            height: area.height,
        }
    }

    /// The middle part of `area`, at most `max_width` wide.
    pub fn center_with_max_width(area: Rect, max_width: u16) -> (r: Rect)
        requires
            area.x + (area.width - min16(area.width, max_width)) / 2 <= u16::MAX,
        ensures
            r.width == min16(area.width, max_width),
            r.x == area.x + (area.width - min16(area.width, max_width)) / 2,
            r.y == area.y,
            r.height == area.height,
    {
        let width = if area.width < max_width {
            area.width
        } else {
            max_width
        };
        let x_offset = (area.width - width) / 2;
        Rect { x: area.x + x_offset, y: area.y, width, height: area.height }
    }

    /// The region a click must fall in to hit text of the given size drawn in `area` with
    /// the given alignment: one column wider than the (cut) text.
    pub fn clickable_text_area(
        area: Rect,
        text_width: u16,
        text_height: u16,
        alignment: Alignment,
    ) -> (r: Rect)
        requires
            min16(text_width, area.width) < u16::MAX,
            area.x + area.width <= u16::MAX,
        ensures
            r.x == (match alignment {
                Alignment::Center => area.x + sat_sub(area.width, text_width) / 2,
                Alignment::Right => area.x + sat_sub(area.width, text_width),
                Alignment::Left => area.x as int,
            }),
            r.y == area.y,
            r.width == min16(text_width, area.width) + 1,
            r.height == min16(text_height, area.height),
    {
        let width = if text_width < area.width {
            text_width
        } else {
            area.width
        } + 1;
        let height = if text_height < area.height {
            text_height
        } else {
            area.height
        };
        match alignment {
            Alignment::Center => {
                let start_x = area.x + area.width.saturating_sub(text_width) / 2;
                Rect { x: start_x, y: area.y, width, height }
            },
            Alignment::Right => {
                let start_x = area.x + area.width.saturating_sub(text_width);
                Rect { x: start_x, y: area.y, width, height }
            },
            Alignment::Left => Rect { x: area.x, y: area.y, width, height },
        }
    }

    /// The middle part of `area` when split horizontally (by ratatui's layout solver) into
    /// margins and a part `width_percentage` percent wide (see `centered_part`).
    pub fn apply_horizontal_centering(area: Rect, width_percentage: u16) -> (r: Rect)
        requires
            width_percentage <= 100,
        ensures
            r == crate::ui::utils::centered_part(area, width_percentage),
    {
        crate::ui::utils::apply_horizontal_centering(area, width_percentage)
    }

    /// The first line to show so that the cursor's line sits in the middle of
    /// `visible_lines` lines (at the top when only one line shows).
    pub open spec fn scroll_offset_spec(cursor_line: int, visible_lines: int) -> int {
        if visible_lines <= 1 {
            cursor_line
        } else if cursor_line >= visible_lines / 2 {
            cursor_line - visible_lines / 2
        } else {
            0
        }
    }

    /// The first line to show so that the cursor's line sits in the middle of
    /// `visible_lines` lines (see `scroll_offset_spec`).
    pub fn calculate_scroll_offset(cursor_line: usize, visible_lines: usize) -> (r: usize)
        ensures
            r == (if visible_lines <= 1 {
                cursor_line as int
            } else if cursor_line >= visible_lines / 2 {
                cursor_line - visible_lines / 2
            } else {
                0
            }),
            r == Self::scroll_offset_spec(cursor_line as int, visible_lines as int),
    {
        if visible_lines <= 1 {
            cursor_line
        } else {
            assert(visible_lines >> 1usize == visible_lines / 2) by (bit_vector);
            let half_visible = visible_lines >> 1;
            cursor_line.saturating_sub(half_visible)
        }
    }
}

} // verus!
