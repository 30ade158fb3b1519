//! The sections of the typing screen.

use vstd::prelude::*;
use crate::geometry::{solved_split, split_area, Constraint, Direction, Padding, Rect};
use crate::ui::utils::centered_part;

verus! {

/// The areas the typing screen is divided into.
#[derive(Debug, Clone, Copy)]
pub struct TermiSection {
    pub header: Rect,
    pub action_bar: Rect,
    pub mode_bar: Rect,
    pub typing_area: Rect,
    pub command_bar: Rect,
    pub footer: Rect,
}

/// The sections of a screen too small to draw on: all empty, at the given corner.
pub fn _build_minimal_section(x: u16, y: u16) -> (r: TermiSection)
    ensures
        ({
            let e = Rect { x, y, width: 0, height: 0 };
            r.header == e && r.action_bar == e && r.mode_bar == e && r.typing_area == e
                && r.command_bar == e && r.footer == e
        }),
{
    let rect = Rect::new(x, y, 0, 0);
    TermiSection {
        header: rect,
        action_bar: rect,
        mode_bar: rect,
        typing_area: rect,
        command_bar: rect,
        footer: rect,
    }
}

/// The middle part of `area` split horizontally (by ratatui's layout solver) into margins
/// and a part `max_content_width` percent wide (see `centered_part`).
pub fn create_centered_rect_with_max_width(area: Rect, max_content_width: u16) -> (r: Rect)
    requires
        max_content_width <= 100,
    ensures
        r == crate::ui::utils::centered_part(area, max_content_width),
{
    crate::ui::utils::apply_horizontal_centering(area, max_content_width)
}

/// The sizes the typing screen is laid out with.
#[derive(Debug, Clone, Copy, PartialEq, Eq, Structural)]
pub struct LayoutDims {
    /// Rows of the top area (header and action bar).
    pub top_area_height: u16,
    pub header_height: u16,
    pub action_bar_height: u16,
    pub mode_bar_height: u16,
    pub command_bar_height: u16,
    pub footer_height: u16,
    /// The percentage of the width the typing area takes.
    pub typing_area_width: u16,
}

/// The sizes below which the screen counts as too small, small, or too narrow for parts.
#[derive(Debug, Clone, Copy, PartialEq, Eq, Structural)]
pub struct ScreenLimits {
    pub min_width: u16,
    pub min_height: u16,
    pub small_width: u16,
    pub small_height: u16,
    pub min_footer_width: u16,
    pub small_results_width: u16,
    pub small_results_height: u16,
}

/// The typing screen's area, its sections, and the limits it was laid out against.
#[derive(Debug, Clone, Copy)]
pub struct TermiLayout {
    pub area: Rect,
    pub section: TermiSection,
    pub limits: ScreenLimits,
}

/// Whether `area` is too small to draw the screen on.
pub open spec fn is_minimal_spec(area: Rect, limits: ScreenLimits) -> bool {
    area.height < limits.min_height || area.width < limits.min_width
}

/// The sections of a screen too small to draw on: all empty, at `area`'s corner.
pub open spec fn minimal_section(area: Rect) -> TermiSection {
    let e = Rect { x: area.x, y: area.y, width: 0, height: 0 };
    TermiSection { header: e, action_bar: e, mode_bar: e, typing_area: e, command_bar: e, footer: e }
}

/// The rows of the typing screen: top area, middle, command bar, a spacing row, footer.
pub open spec fn main_rows(d: LayoutDims) -> Seq<Constraint> {
    seq![
        Constraint::Length(d.top_area_height),
        Constraint::Min(0),
        Constraint::Length(d.command_bar_height),
        Constraint::Length(1),
        Constraint::Length(d.footer_height),
    ]
}

/// The rows of the top area: header and action bar.
pub open spec fn top_rows(d: LayoutDims) -> Seq<Constraint> {
    seq![Constraint::Length(d.header_height), Constraint::Length(d.action_bar_height)]
}

/// The rows of the middle: padding, the typing block (mode bar and `lines` lines), padding.
pub open spec fn middle_rows(d: LayoutDims, lines: int) -> Seq<Constraint> {
    seq![Constraint::Min(0), Constraint::Length((d.mode_bar_height + lines) as u16), Constraint::Min(0)]
}

/// The rows of the typing block: mode bar and `lines` lines of text.
pub open spec fn block_rows(d: LayoutDims, lines: int) -> Seq<Constraint> {
    seq![Constraint::Length(d.mode_bar_height), Constraint::Length(lines as u16)]
}

/// Whether `s` are the sections of the screen in `area` showing `lines` lines, as ratatui's
/// layout solver divides it (see `solved_split`): `c` the rows of `area` (`main_rows`), `t`
/// those of the top area (`top_rows`), `mm` those of the middle (`middle_rows`), `m` those
/// of the typing block `mm[1]` (`block_rows`); the mode bar and the typing area the
/// centred parts of their rows (`centered_part`).
pub open spec fn sections_from(
    area: Rect,
    d: LayoutDims,
    lines: int,
    c: Seq<Rect>,
    t: Seq<Rect>,
    mm: Seq<Rect>,
    m: Seq<Rect>,
    s: TermiSection,
) -> bool {
    &&& solved_split(Direction::Vertical, main_rows(d), area, c)
    &&& solved_split(Direction::Vertical, top_rows(d), c[0], t)
    &&& solved_split(Direction::Vertical, middle_rows(d, lines), c[1], mm)
    &&& solved_split(Direction::Vertical, block_rows(d, lines), mm[1], m)
    &&& s.header == t[0]
    &&& s.action_bar == t[1]
    &&& s.mode_bar == centered_part(m[0], d.typing_area_width)
    &&& s.typing_area == centered_part(m[1], d.typing_area_width)
    &&& s.command_bar == c[2]
    &&& s.footer == c[4]
}

impl TermiLayout {
    /// Whether the screen is too small to draw on.
    pub fn is_minimal(&self) -> (r: bool)
        ensures
            r == is_minimal_spec(self.area, self.limits),
    {
        _is_minimal(self.area, self.limits)
    }

    /// Whether the screen is narrow or short.
    pub fn is_small(&self) -> (r: bool)
        ensures
            r == (self.area.width < self.limits.small_width || self.area.height
                < self.limits.small_height),
    {
        self.area.width < self.limits.small_width || self.area.height < self.limits.small_height
    }

    /// Whether the screen is narrow.
    pub fn w_small(&self) -> (r: bool)
        ensures
            r == (self.area.width < self.limits.small_width),
    {
        self.area.width < self.limits.small_width
    }

    /// Whether the screen is short.
    pub fn h_small(&self) -> (r: bool)
        ensures
            r == (self.area.height < self.limits.small_height),
    {
        self.area.height < self.limits.small_height
    }

    /// Whether the footer fits.
    pub fn show_footer(&self) -> (r: bool)
        ensures
            r == (self.area.width >= self.limits.min_footer_width),
    {
        self.area.width >= self.limits.min_footer_width
    }

    /// The padding of the screen's container block: none when too small, one cell all
    /// round when narrow, else two columns and one row.
    pub fn container_padding(&self) -> (r: Padding)
        ensures
            r == (if is_minimal_spec(self.area, self.limits) {
                Padding { left: 0, right: 0, top: 0, bottom: 0 }
            } else if self.area.width < self.limits.small_width {
                Padding { left: 1, right: 1, top: 1, bottom: 1 }
            } else {
                Padding { left: 2, right: 2, top: 1, bottom: 1 }
            }),
    {
        if self.is_minimal() {
            Padding { left: 0, right: 0, top: 0, bottom: 0 }
        } else if self.w_small() {
            Padding { left: 1, right: 1, top: 1, bottom: 1 }
        } else {
            Padding { left: 2, right: 2, top: 1, bottom: 1 }
        }
    }

    /// Whether the results show in their small form.
    pub fn show_small_results(&self) -> (r: bool)
        ensures
            r == (self.area.width < self.limits.small_results_width || self.area.height
                < self.limits.small_results_height),
    {
        self.area.width < self.limits.small_results_width || self.area.height
            < self.limits.small_results_height
    }
}

/// Whether `area` is too small to draw the screen on.
pub fn _is_minimal(area: Rect, limits: ScreenLimits) -> (r: bool)
    ensures
        r == is_minimal_spec(area, limits),
{
    area.height < limits.min_height || area.width < limits.min_width
}

/// The layout of the typing screen in `area`, showing `visible_lines` lines of text: empty
/// sections at the corner when the area is too small, else sections as ratatui's layout
/// solver divides the area (see `sections_from`).
pub fn create_layout(area: Rect, visible_lines: u8, d: LayoutDims, limits: ScreenLimits) -> (r: TermiLayout)
    requires
        d.mode_bar_height + visible_lines <= u16::MAX,
        d.typing_area_width <= 100,
    ensures
        r.area == area,
        r.limits == limits,
        is_minimal_spec(area, limits) ==> r.section == minimal_section(area),
        !is_minimal_spec(area, limits) ==> exists|c: Seq<Rect>, t: Seq<Rect>, mm: Seq<Rect>, m: Seq<Rect>|
            #[trigger] sections_from(area, d, visible_lines as int, c, t, mm, m, r.section),
{
    if _is_minimal(area, limits) {
        return TermiLayout { area, section: _build_minimal_section(area.x, area.y), limits };
    }
    let lines = visible_lines as u16;
    let main = vec![
        Constraint::Length(d.top_area_height),
        Constraint::Min(0),
        Constraint::Length(d.command_bar_height),
        Constraint::Length(1),
        Constraint::Length(d.footer_height),
    ];
    assert(main@ =~= main_rows(d));
    let chunks = split_area(Direction::Vertical, &main, area);
    let top_cs = vec![Constraint::Length(d.header_height), Constraint::Length(d.action_bar_height)];
    assert(top_cs@ =~= top_rows(d));
    let top = split_area(Direction::Vertical, &top_cs, chunks[0]);
    let mid_cs = vec![Constraint::Min(0), Constraint::Length(d.mode_bar_height + lines), Constraint::Min(0)];
    assert(mid_cs@ =~= middle_rows(d, visible_lines as int));
    let mid_parts = split_area(Direction::Vertical, &mid_cs, chunks[1]);
    let block_cs = vec![Constraint::Length(d.mode_bar_height), Constraint::Length(lines)];
    assert(block_cs@ =~= block_rows(d, visible_lines as int));
    let mid = split_area(Direction::Vertical, &block_cs, mid_parts[1]);
    let mode_bar = create_centered_rect_with_max_width(mid[0], d.typing_area_width);
    let typing_area = create_centered_rect_with_max_width(mid[1], d.typing_area_width);
    let section = TermiSection {
        header: top[0],
        action_bar: top[1],
        mode_bar,
        typing_area,
        command_bar: chunks[2],
        footer: chunks[4],
    };
    let r = TermiLayout { area, section, limits };
    assert(sections_from(area, d, visible_lines as int, chunks@, top@, mid_parts@, mid@, r.section));
    r
}

} // verus!
