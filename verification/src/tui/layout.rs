//! Proportions of the main screen and placement of the picker overlay.

use vstd::prelude::*;
use crate::geometry::{
    axis_end, axis_len, axis_start, boundary, exact_part, lemma_round_whole, lemma_three_parts, lemma_two_parts,
    min_count, solvable_exactly, solved_split, split_area, total_demand, Constraint, Direction, Rect,
};

verus! {

/// The shares of the screen height given to the top area, the typing area, the command
/// area and the footer, in percent.
pub struct LayoutBuilder {
    top_percent: u16,
    center_percent: u16,
    command_percent: u16,
    footer_percent: u16,
}

impl LayoutBuilder {
    /// The (top, center, command, footer) percentages.
    pub closed spec fn percents(self) -> (u16, u16, u16, u16) {
        (self.top_percent, self.center_percent, self.command_percent, self.footer_percent)
    }

    pub fn new() -> (r: Self)
        ensures
            r.percents() == (15u16, 75u16, 7u16, 2u16),
    {
        Self { top_percent: 15, center_percent: 75, command_percent: 7, footer_percent: 2 }
    }

    /// Whether an area is too small for the regular layout.
    pub fn is_too_smol(area: Rect) -> (r: bool)
        ensures
            r == (area.height < 8 || area.width < 35),
    {
        area.height < 8 || area.width < 35
    }

    pub fn top_percent(self, percent: u16) -> (r: Self)
        ensures
            r.percents() == (percent, self.percents().1, self.percents().2, self.percents().3),
    {
        let mut s = self;
        s.top_percent = percent;
        s
    }

    pub fn center_percent(self, percent: u16) -> (r: Self)
        ensures
            r.percents() == (self.percents().0, percent, self.percents().2, self.percents().3),
    {
        let mut s = self;
        s.center_percent = percent;
        s
    }

    pub fn command_percent(self, percent: u16) -> (r: Self)
        ensures
            r.percents() == (self.percents().0, self.percents().1, percent, self.percents().3),
    {
        let mut s = self;
        s.command_percent = percent;
        s
    }

    pub fn footer_percent(self, percent: u16) -> (r: Self)
        ensures
            r.percents() == (self.percents().0, self.percents().1, self.percents().2, percent),
    {
        let mut s = self;
        s.footer_percent = percent;
        s
    }

    /// The (top, center, command, footer) percentages, for drawing the layout.
    pub fn shares(&self) -> (r: (u16, u16, u16, u16))
        ensures
            r == self.percents(),
    {
        (self.top_percent, self.center_percent, self.command_percent, self.footer_percent)
    }
}

impl LayoutBuilder {
    /// The vertical constraints of the main screen: top, typing, command, a one-row gap and
    /// the footer.
    fn constraints(&self) -> (r: Vec<Constraint>)
        ensures
            r@ == main_constraints(self.percents()),
    {
        let r = vec![
            Constraint::Percentage(self.top_percent),
            Constraint::Percentage(self.center_percent),
            Constraint::Percentage(self.command_percent),
            Constraint::Length(1),
            Constraint::Percentage(self.footer_percent),
        ];
        assert(r@ =~= main_constraints(self.percents()));
        r
    }

    /// Lays out the main screen in `area`: ratatui's layout solver divides it into rows by
    /// the builder's percentages (top, typing, command, a one-row gap, footer; see
    /// `main_constraints`), stacked from the area's top, and the typing row into a centred
    /// column (four fifths of it, at most 80 and at least 1 wide; see `center_columns`); the
    /// title and mode-bar rows go below the top part's first row where the screen is tall
    /// enough (see `app_with_parts`). The mode-bar row must stay in the grid (see
    /// `build_fits`).
    pub fn build(self, area: Rect) -> (r: AppLayout)
        requires
            area.width >= 1,
            build_fits(area),
        ensures
            exists|v: Seq<Rect>, h: Seq<Rect>| #[trigger] app_with_parts(area, self.percents(), v, h, r),
            r.top_area.x == area.x && r.top_area.y == area.y && r.top_area.width == area.width,
            r.center_area.y == r.top_area.y + r.top_area.height,
            area.x + area.width <= u16::MAX ==> r.center_area.width == center_width_spec(area.width as int)
                && r.center_area.x == area.x + (area.width - center_width_spec(area.width as int)) / 2,
    {
        let constraints = self.constraints();
        let vertical_layout = split_area(Direction::Vertical, &constraints, area);
        assert(axis_start(Direction::Vertical, vertical_layout@[1]) == axis_end(Direction::Vertical, vertical_layout@[0]));
        let p = self.shares();
        layout_from_parts(area, p, &vertical_layout)
    }
}

/// Whether the mode-bar row, three rows below the area's top (where the top part starts),
/// stays in the grid when the screen is tall enough to show it (15 rows).
pub open spec fn build_fits(area: Rect) -> bool {
    area.height >= 15 ==> area.y + 3 <= u16::MAX
}

/// The width of the typing column in a row `w` wide: four fifths of it, at most 80 and at
/// least 1.
pub open spec fn center_width_spec(w: int) -> int {
    let f = w * 4 / 5;
    let c = if 80 < f { 80 } else { f };
    if c < 1 { 1 } else { c }
}

/// The columns of a typing row `w` wide: a left margin, the typing column
/// (`center_width_spec`) and a right margin, the left margin half of the rest rounded down.
pub open spec fn center_columns(w: u16) -> Seq<Constraint> {
    let c = center_width_spec(w as int);
    let left = (w - c) / 2;
    seq![
        Constraint::Length(left as u16),
        Constraint::Length(c as u16),
        Constraint::Length((w - c - left) as u16),
    ]
}

/// The typing column of the row `row`: `center_width_spec` wide after a left margin of half
/// the rest, rounded down.
pub open spec fn center_column(row: Rect) -> Rect {
    let c = center_width_spec(row.width as int);
    Rect { x: (row.x + (row.width - c) / 2) as u16, y: row.y, width: c as u16, height: row.height }
}

/// Where a row fits in the grid across, its columns are solved exactly and the typing
/// column is `center_column(row)`.
pub proof fn lemma_center_column(row: Rect, h: Seq<Rect>)
    requires
        row.width >= 1,
        row.x + row.width <= u16::MAX,
        solved_split(Direction::Horizontal, center_columns(row.width), row, h),
    ensures
        h[1] == center_column(row),
{
    let w = row.width as int;
    let c = center_width_spec(w);
    let left = (w - c) / 2;
    let cs = center_columns(row.width);
    let len = axis_len(Direction::Horizontal, row);
    assert(len == w);
    lemma_three_parts(cs[0], cs[1], cs[2], len);
    assert(cs =~= seq![cs[0], cs[1], cs[2]]);
    assert(total_demand(cs, len) == 100 * w);
    assert(min_count(cs) == 0);
    assert(solvable_exactly(cs, len));
    assert(boundary(cs, len, 1) == 100 * left);
    assert(boundary(cs, len, 2) == 100 * (left + c));
    lemma_round_whole(left);
    lemma_round_whole(left + c);
    assert(h[1] == exact_part(Direction::Horizontal, cs, row, 1));
}

/// The main screen in `area` given the parts the layout solver gives: the top part `top`,
/// the typing column `center`, the command part and the footer part. The title and
/// mode-bar rows hang below the top part's first row: the title (from 14 rows on the
/// screen) one row tall, then a row's gap and the mode bar (from 15 rows) filling the rest
/// of the top part.
pub open spec fn app_layout_from(area: Rect, top: Rect, center: Rect, command: Rect, footer: Rect) -> AppLayout {
    let show_title = area.height >= 14;
    let show_mode_bar = area.height >= 15;
    let available = if top.height >= 1 { top.height - 1 } else { 0 };
    let title_height: u16 = if show_title { 1 } else { 0 };
    let mode_bar_height = if available >= title_height + 1 {
        available - title_height - 1
    } else {
        0
    };
    AppLayout {
        top_area: top,
        center_area: center,
        command_area: command,
        footer_area: footer,
        title_area: if show_title && available >= title_height {
            Some(Rect { x: top.x, y: (top.y + 1) as u16, width: top.width, height: title_height })
        } else {
            None
        },
        mode_bar_area: if show_mode_bar {
            Some(
                Rect {
                    x: top.x,
                    y: (top.y + 2 + title_height) as u16,
                    width: top.width,
                    height: mode_bar_height as u16,
                },
            )
        } else {
            None
        },
        show_title,
        show_mode_bar,
        show_footer: area.height >= 5,
        show_command_bar: area.height >= 28,
    }
}

/// Whether `r` can be the main screen in `area` laid out with the percentages `p` (see
/// `app_layout_from`): `v` the rows the layout solver divides the area into by
/// `main_constraints(p)`, `h` the columns it divides the typing row `v[1]` into by
/// `center_columns` (see `solved_split`), the typing column being `h[1]`, which is
/// `center_column(v[1])` where the row fits in the grid across.
pub open spec fn app_with_parts(area: Rect, p: (u16, u16, u16, u16), v: Seq<Rect>, h: Seq<Rect>, r: AppLayout) -> bool {
    &&& solved_split(Direction::Vertical, main_constraints(p), area, v)
    &&& solved_split(Direction::Horizontal, center_columns(v[1].width), v[1], h)
    &&& area.x + area.width <= u16::MAX ==> h[1] == center_column(v[1])
    &&& r == app_layout_from(area, v[0], h[1], v[2], v[4])
}

/// The main screen from the rows `parts` of `area` laid out with the percentages `p`.
fn layout_from_parts(area: Rect, p: (u16, u16, u16, u16), parts: &Vec<Rect>) -> (r: AppLayout)
    requires
        area.width >= 1,
        build_fits(area),
        solved_split(Direction::Vertical, main_constraints(p), area, parts@),
    ensures
        exists|v: Seq<Rect>, h: Seq<Rect>| #[trigger] app_with_parts(area, p, v, h, r),
        r.top_area == parts@[0],
        r.center_area.y == parts@[1].y,
        area.x + area.width <= u16::MAX ==> r.center_area == center_column(parts@[1]),
{
    assert(parts@[0].y == area.y);
    let top_area = parts[0];
    let typing_area = parts[1];
    let command_area = parts[2];
    let footer_area = parts[4];
    let four_fifths = (typing_area.width as u32 * 4 / 5) as u16;
    let center_width = if MAX_WIDTH < four_fifths {
        MAX_WIDTH
    } else {
        four_fifths
    };
    let center_width = if center_width < 1 {
        1
    } else {
        center_width
    };
    let left_width = (typing_area.width - center_width) / 2;
    let right_width = typing_area.width - center_width - left_width;
    let columns = vec![
        Constraint::Length(left_width),
        Constraint::Length(center_width),
        Constraint::Length(right_width),
    ];
    assert(center_width == center_width_spec(typing_area.width as int));
    assert(columns@ =~= center_columns(typing_area.width));
    let horizontal_layout = split_area(Direction::Horizontal, &columns, typing_area);
    let center_area = horizontal_layout[1];
    proof {
        if area.x + area.width <= u16::MAX {
            lemma_center_column(typing_area, horizontal_layout@);
        }
    }

    let show_title = area.height >= 14;
    let show_mode_bar = area.height >= 15;

    let padding_top: u16 = 1;
    let available_height = top_area.height.saturating_sub(padding_top);
    let title_height: u16 = if show_title {
        1
    } else {
        0
    };
    let mode_bar_height = if show_mode_bar {
        available_height.saturating_sub(title_height + 1)
    } else {
        0
    };

    let title_area = if show_title && available_height >= title_height {
        Some(
            Rect {
                x: top_area.x,
                y: top_area.y + padding_top,
                width: top_area.width,
                height: title_height,
            },
        )
    } else {
        None
    };

    let mode_bar_area = if show_mode_bar {
        Some(
            Rect {
                x: top_area.x,
                y: top_area.y + padding_top + title_height + 1,
                width: top_area.width,
                height: mode_bar_height,
            },
        )
    } else {
        None
    };

    let r = AppLayout {
        top_area,
        center_area,
        command_area,
        footer_area,
        title_area,
        mode_bar_area,
        show_title,
        show_mode_bar,
        show_footer: area.height >= 5,
        show_command_bar: area.height >= 28,
    };
    assert(app_with_parts(area, p, parts@, horizontal_layout@, r));
    r
}

/// The widest the typing column gets.
const MAX_WIDTH: u16 = 80;

/// The regions of the main screen.
#[derive(Debug)]
pub struct AppLayout {
    pub top_area: Rect,
    pub center_area: Rect,
    pub command_area: Rect,
    pub footer_area: Rect,
    pub title_area: Option<Rect>,
    pub mode_bar_area: Option<Rect>,
    pub show_title: bool,
    pub show_mode_bar: bool,
    pub show_footer: bool,
    pub show_command_bar: bool,
}

/// The vertical constraints for the percentages (top, center, command, footer), with a
/// one-row gap before the footer.
pub open spec fn main_constraints(p: (u16, u16, u16, u16)) -> Seq<Constraint> {
    seq![
        Constraint::Percentage(p.0),
        Constraint::Percentage(p.1),
        Constraint::Percentage(p.2),
        Constraint::Length(1),
        Constraint::Percentage(p.3),
    ]
}

/// Where the percentages and the one-row gap fit the height `len`, the main screen's rows
/// are solved exactly: stacked from the top, each its percentage of the height (and the
/// gap one row), at boundaries rounded to cells.
pub proof fn lemma_main_rows_exact(p: (u16, u16, u16, u16), len: int)
    requires
        len >= 0,
        (p.0 + p.1 + p.2 + p.3) * len + 100 <= 100 * len,
    ensures
        ({
            let cs = main_constraints(p);
            &&& solvable_exactly(cs, len)
            &&& boundary(cs, len, 1) == p.0 * len
            &&& boundary(cs, len, 2) == (p.0 + p.1) * len
            &&& boundary(cs, len, 3) == (p.0 + p.1 + p.2) * len
            &&& boundary(cs, len, 4) == (p.0 + p.1 + p.2) * len + 100
            &&& boundary(cs, len, 5) == (p.0 + p.1 + p.2 + p.3) * len + 100
        }),
{
    let cs = main_constraints(p);
    let c4 = cs.drop_last();
    let c3 = c4.drop_last();
    let c2 = c3.drop_last();
    let c1 = c2.drop_last();
    let c0 = c1.drop_last();
    assert(c0 =~= Seq::<Constraint>::empty());
    assert(c1 =~= seq![Constraint::Percentage(p.0)]);
    assert(c2 =~= seq![Constraint::Percentage(p.0), Constraint::Percentage(p.1)]);
    assert(total_demand(c0, len) == 0);
    assert(min_count(c0) == 0);
    assert(total_demand(c1, len) == p.0 * len);
    assert(total_demand(c2, len) == p.0 * len + p.1 * len);
    assert(total_demand(c3, len) == p.0 * len + p.1 * len + p.2 * len);
    assert(total_demand(c4, len) == p.0 * len + p.1 * len + p.2 * len + 100);
    assert(total_demand(cs, len) == p.0 * len + p.1 * len + p.2 * len + 100 + p.3 * len);
    assert(min_count(c1) == 0);
    assert(min_count(c2) == 0);
    assert(min_count(c3) == 0);
    assert(min_count(c4) == 0);
    assert(min_count(cs) == 0);
    assert((p.0 + p.1) * len == p.0 * len + p.1 * len) by (nonlinear_arith);
    assert((p.0 + p.1 + p.2) * len == p.0 * len + p.1 * len + p.2 * len) by (nonlinear_arith);
    assert((p.0 + p.1 + p.2 + p.3) * len == p.0 * len + p.1 * len + p.2 * len + p.3 * len)
        by (nonlinear_arith);
    assert(solvable_exactly(cs, len));
    assert(boundary(cs, len, 0) == 0);
    assert(boundary(cs, len, 1) == p.0 * len);
    assert(boundary(cs, len, 2) == p.0 * len + p.1 * len);
    assert(boundary(cs, len, 3) == p.0 * len + p.1 * len + p.2 * len);
    assert(boundary(cs, len, 4) == p.0 * len + p.1 * len + p.2 * len + 100);
    assert(boundary(cs, len, 5) == p.0 * len + p.1 * len + p.2 * len + 100 + p.3 * len);
}

/// The main screen laid out in `area` with the default proportions (see
/// `LayoutBuilder::build`): the area must have columns, and the mode-bar row must stay in
/// the grid (see `build_fits`).
pub fn create_main_layout(area: Rect) -> (r: AppLayout)
    requires
        area.width >= 1,
        build_fits(area),
    ensures
        exists|v: Seq<Rect>, h: Seq<Rect>|
            #[trigger] app_with_parts(area, (15u16, 75u16, 7u16, 2u16), v, h, r),
        r.top_area.x == area.x && r.top_area.y == area.y && r.top_area.width == area.width,
        r.center_area.y == r.top_area.y + r.top_area.height,
        area.x + area.width <= u16::MAX ==> r.center_area.width == center_width_spec(area.width as int)
            && r.center_area.x == area.x + (area.width - center_width_spec(area.width as int)) / 2,
{
    LayoutBuilder::new().build(area)
}

impl Default for LayoutBuilder {
    fn default() -> (r: Self)
        ensures
            r.percents() == (0u16, 0u16, 0u16, 0u16),
    {
        Self { top_percent: 0, center_percent: 0, command_percent: 0, footer_percent: 0 }
    }
}

/// Whether the picker takes the whole area: on a short or narrow screen.
pub fn picker_should_use_full_area(area: Rect) -> (r: bool)
    ensures
        r == (area.height < 25 || area.width < 60),
{
    area.height < 25 || area.width < 60
}

/// Whether there is height for the picker's preview.
pub fn picker_should_show_visualizer(area: Rect) -> (r: bool)
    ensures
        r == (area.height >= 17),
{
    area.height >= 17
}

/// The picker overlay: on a small screen the whole area but for a three-row bar at the
/// bottom; otherwise at most 90 columns (6 less than the area) by between 12 and 30 rows
/// (6 less than the area), centered in the area's size and raised by two rows.
pub open spec fn picker_overlay_area_spec(area: Rect) -> Rect {
    if area.height < 25 || area.width < 60 {
        Rect {
            x: area.x,
            y: area.y,
            width: area.width,
            height: (if area.height >= 3 { area.height - 3 } else { 0 }) as u16,
        }
    } else {
        let max_width = if 90 < area.width - 6 { 90 } else { area.width - 6 };
        let h6 = area.height - 6;
        let a = if 30 < h6 { 30 } else { h6 };
        let b = if a > 12 { a } else { 12 };
        let max_height = if b < area.height { b } else { area.height as int };
        Rect {
            x: ((area.width - max_width) / 2) as u16,
            y: ((area.height - max_height) / 2 - 2) as u16,
            width: max_width as u16,
            height: max_height as u16,
        }
    }
}

/// Where the picker overlay goes in `area`.
pub fn picker_overlay_area(area: Rect) -> (r: Rect)
    ensures
        r == picker_overlay_area_spec(area),
{
    if picker_should_use_full_area(area) {
        let bar_height: u16 = 3;
        let height = area.height.saturating_sub(bar_height);
        return Rect { x: area.x, y: area.y, width: area.width, height };
    }
    let w6 = area.width.saturating_sub(6);
    let max_width: u16 = if 90 < w6 {
        90
    } else {
        w6
    };
    let h6 = area.height.saturating_sub(6);
    let a: u16 = if 30 < h6 {
        30
    } else {
        h6
    };
    let b: u16 = if a > 12 {
        a
    } else {
        12
    };
    let max_height: u16 = if b < area.height {
        b
    } else {
        area.height
    };
    Rect {
        x: (area.width - max_width) / 2,
        y: (area.height - max_height) / 2 - 2,
        width: max_width,
        height: max_height,
    }
}

/// The results screen: the results above a one-row footer.
#[derive(Debug)]
pub struct ResultsLayout {
    pub results_area: Rect,
    pub footer_area: Rect,
}

/// Splits `area` vertically (by ratatui's layout solver) into the results above and a
/// one-row footer at the bottom: where the area has rows (in the grid), the footer is its
/// last row and the results the rows above; else both are empty rows at its top.
pub fn create_results_layout(area: Rect) -> (r: ResultsLayout)
    ensures
        ({
            let len = axis_len(Direction::Vertical, area);
            &&& len >= 1 ==> r.results_area == Rect { x: area.x, y: area.y, width: area.width, height: (len - 1) as u16 }
            &&& len >= 1 ==> r.footer_area == Rect { x: area.x, y: (area.y + len - 1) as u16, width: area.width, height: 1 }
            &&& len == 0 ==> r.results_area == Rect { x: area.x, y: area.y, width: area.width, height: 0 }
            &&& len == 0 ==> r.footer_area == Rect { x: area.x, y: area.y, width: area.width, height: 0 }
        }),
{
    let constraints = vec![Constraint::Min(0), Constraint::Length(1)];
    let parts = split_area(Direction::Vertical, &constraints, area);
    proof {
        let cs = constraints@;
        let len = axis_len(Direction::Vertical, area);
        lemma_two_parts(cs[0], cs[1], len);
        assert(cs =~= seq![cs[0], cs[1]]);
        assert(parts@.len() == 2);
        assert(crate::geometry::part_of(Direction::Vertical, area, parts@[0]));
        assert(crate::geometry::part_of(Direction::Vertical, area, parts@[1]));
        if len >= 1 {
            assert(total_demand(cs, len) == 100);
            assert(min_count(cs) == 1);
            assert(solvable_exactly(cs, len));
            crate::geometry::lemma_one_min_share(cs, len, 0);
            assert(boundary(cs, len, 1) == 100 * (len - 1));
            assert(boundary(cs, len, 2) == 100 * len);
            lemma_round_whole(len - 1);
            lemma_round_whole(len);
            assert(parts@[0] == exact_part(Direction::Vertical, cs, area, 0));
            assert(parts@[1] == exact_part(Direction::Vertical, cs, area, 1));
        }
    }
    ResultsLayout { results_area: parts[0], footer_area: parts[1] }
}

} // verus!
