//! Drawing the screen: the clickable regions of a frame, the placement of a row of
//! elements, where the results go, and the areas of the theme preview.

use vstd::prelude::*;
use crate::geometry::{
    axis_len, boundary, bordered_inner, bordered_inner_spec, exact_part, lemma_round_whole, lemma_three_parts,
    min_count, solvable_exactly, solved_split, split_area, total_demand, Alignment, Constraint, Direction, Rect,
};
use crate::ui::utils::centered_part;
use crate::ui::actions::TermiClickAction;
use crate::utils::{decimal, push_decimal};

verus! {

/// The regions of the last drawn frame that react to clicks, in drawing order.
#[derive(Debug)]
pub struct TermiClickableRegions {
    pub regions: Vec<(Rect, TermiClickAction)>,
}

impl TermiClickableRegions {
    pub fn new() -> (r: Self)
        ensures
            r.regions@.len() == 0,
    {
        Self { regions: Vec::new() }
    }

    /// Records a region, unless it has no area.
    pub fn add(&mut self, area: Rect, action: TermiClickAction)
        ensures
            area.width > 0 && area.height > 0 ==> final(self).regions@ == old(self).regions@.push(
                (area, action),
            ),
            !(area.width > 0 && area.height > 0) ==> final(self).regions@ == old(self).regions@,
    {
        if area.width > 0 && area.height > 0 {
            self.regions.push((area, action));
        }
    }
}

impl Default for TermiClickableRegions {
    fn default() -> (r: Self)
        ensures
            r.regions@.len() == 0,
    {
        Self::new()
    }
}

/// The lowest and highest of the speed samples, `None` without samples.
pub open spec fn wpm_range_spec(samples: Seq<u32>) -> Option<(u32, u32)>
    decreases samples.len(),
{
    if samples.len() == 0 {
        None
    } else {
        let v = samples.last();
        match wpm_range_spec(samples.drop_last()) {
            None => Some((v, v)),
            Some((lo, hi)) => Some((if v < lo { v } else { lo }, if v > hi { v } else { hi })),
        }
    }
}

/// The lowest and highest of the speed samples, shown as the speed range of the results.
/// A sample of `u32::MAX` counts as no sample (the lowest starts there).
pub fn wpm_range(samples: &[u32]) -> (r: Option<(u32, u32)>)
    ensures
        r == (match wpm_range_spec(samples@) {
            Some((lo, hi)) => if lo == u32::MAX { None } else { Some((lo, hi)) },
            None => None,
        }),
{
    let mut min_wpm: u32 = u32::MAX;
    let mut max_wpm: u32 = 0;
    let mut i: usize = 0;
    while i < samples.len()
        invariant
            i <= samples@.len(),
            (match wpm_range_spec(samples@.take(i as int)) {
                Some((lo, hi)) => min_wpm == lo && max_wpm == hi,
                None => min_wpm == u32::MAX && max_wpm == 0,
            }),
        decreases samples.len() - i,
    {
        let v = samples[i];
        assert(samples@.take(i + 1).drop_last() =~= samples@.take(i as int));
        if v < min_wpm {
            min_wpm = v;
        }
        if v > max_wpm {
            max_wpm = v;
        }
        i += 1;
    }
    assert(samples@.take(i as int) =~= samples@);
    if min_wpm == u32::MAX {
        None
    } else {
        Some((min_wpm, max_wpm))
    }
}

/// The speed range the details show (see `wpm_range`).
pub open spec fn shown_wpm_range(samples: Seq<u32>) -> Option<(u32, u32)> {
    match wpm_range_spec(samples) {
        Some((lo, hi)) => if lo == u32::MAX { None } else { Some((lo, hi)) },
        None => None,
    }
}

/// The speed range as the details show it, "{lowest}-{highest}", or `None` where there is
/// none to show (see `shown_wpm_range`).
pub fn wpm_range_text(samples: &[u32]) -> (r: Option<String>)
    ensures
        r is Some <==> shown_wpm_range(samples@) is Some,
        r matches Some(t) ==> (match shown_wpm_range(samples@) {
            Some((lo, hi)) => t@ == decimal(lo as nat) + "-"@ + decimal(hi as nat),
            None => false,
        }),
{
    match wpm_range(samples) {
        None => None,
        Some((lo, hi)) => {
            let mut t = String::new();
            push_decimal(&mut t, lo as u128);
            t.append("-");
            push_decimal(&mut t, hi as u128);
            Some(t)
        },
    }
}

/// The keystrokes the details count as errors: all keystrokes less the correct ones, none
/// when as many or more were correct.
pub fn error_count(total_keystrokes: u64, correct_keystrokes: u64) -> (r: u64)
    ensures
        r == (if total_keystrokes >= correct_keystrokes { total_keystrokes - correct_keystrokes } else { 0 }),
{
    total_keystrokes.saturating_sub(correct_keystrokes)
}

/// Where the results go.
#[derive(Debug, Clone, Copy, PartialEq, Eq, Structural)]
pub enum ResultsPlacement {
    /// The statistics alone, in this area.
    StatsOnly(Rect),
    /// The art and the statistics side by side, each in its area.
    SideBySide(Rect, Rect),
}

/// A `width` by `height` box centered in `area`, cut to it.
pub open spec fn centered_box(area: Rect, width: u16, height: u16) -> Rect {
    Rect {
        x: (area.x + (if area.width >= width { (area.width - width) / 2 } else { 0 })) as u16,
        y: (area.y + (if area.height >= height { (area.height - height) / 2 } else { 0 })) as u16,
        width: if width < area.width { width } else { area.width },
        height: if height < area.height { height } else { area.height },
    }
}

/// `box_height` rows centered vertically in `part`, cut to it.
pub open spec fn centered_in_part(part: Rect, box_height: u16) -> Rect {
    Rect {
        x: part.x,
        y: (part.y + (if part.height >= box_height { (part.height - box_height) / 2 } else { 0 })) as u16,
        width: part.width,
        height: if box_height < part.height { box_height } else { part.height },
    }
}

/// The band the art, a five-column gap and the statistics share: as wide as the three
/// together and as tall as the taller of art and statistics, centered in `area` and cut to
/// it.
pub open spec fn results_band(
    area: Rect,
    art_width: u16,
    art_height: u16,
    stats_width: u16,
    stats_height: u16,
) -> Rect {
    let total = art_width + stats_width + 5;
    let tall = if stats_height > art_height { stats_height } else { art_height };
    Rect {
        x: (area.x + (if area.width >= total { (area.width - total) / 2 } else { 0 })) as u16,
        y: (area.y + (if area.height >= tall { (area.height - tall) / 2 } else { 0 })) as u16,
        width: (if total < area.width { total } else { area.width as int }) as u16,
        height: if tall < area.height { tall } else { area.height },
    }
}

/// Where the results go in `area` for art `art_width` by `art_height` and statistics
/// `stats_width` by `stats_height`, the band divided into the art's part `art_part` and the
/// statistics' part `stats_part`: on a small screen the statistics alone, centered;
/// otherwise the art and the statistics each centered vertically in its part of the band,
/// unless the band would pass the right edge or has no width, when again the statistics
/// stand alone.
pub open spec fn results_placement_from(
    area: Rect,
    art_width: u16,
    art_height: u16,
    stats_width: u16,
    stats_height: u16,
    is_small: bool,
    art_part: Rect,
    stats_part: Rect,
) -> ResultsPlacement {
    let stats_alone = ResultsPlacement::StatsOnly(centered_box(area, stats_width, stats_height));
    let band = results_band(area, art_width, art_height, stats_width, stats_height);
    if is_small || band.x + band.width > area.x + area.width || band.width == 0 {
        stats_alone
    } else {
        ResultsPlacement::SideBySide(
            centered_in_part(art_part, art_height),
            centered_in_part(stats_part, stats_height),
        )
    }
}

/// The columns of the results band: the art, a five-column gap and the statistics.
pub open spec fn side_columns(art_width: u16, stats_width: u16) -> Seq<Constraint> {
    seq![Constraint::Length(art_width), Constraint::Length(5), Constraint::Length(stats_width)]
}

/// Whether `r` is where the results go (see `results_placement_from`), `cols` being the
/// columns ratatui's layout solver divides the band into by `side_columns` (see
/// `solved_split`) where the art and the statistics go side by side; where the band is not
/// cut by the area, those columns are the art's width at the band's left, the gap, and the
/// statistics' width.
pub open spec fn placement_with_parts(
    area: Rect,
    art_width: u16,
    art_height: u16,
    stats_width: u16,
    stats_height: u16,
    is_small: bool,
    cols: Seq<Rect>,
    r: ResultsPlacement,
) -> bool {
    let band = results_band(area, art_width, art_height, stats_width, stats_height);
    let side_by_side = !(is_small || band.x + band.width > area.x + area.width || band.width == 0);
    &&& side_by_side ==> solved_split(Direction::Horizontal, side_columns(art_width, stats_width), band, cols)
    &&& side_by_side && art_width + stats_width + 5 <= area.width ==> cols[0] == Rect {
        x: band.x,
        y: band.y,
        width: art_width,
        height: band.height,
    } && cols[2] == Rect { x: (band.x + art_width + 5) as u16, y: band.y, width: stats_width, height: band.height }
    &&& r == results_placement_from(
        area,
        art_width,
        art_height,
        stats_width,
        stats_height,
        is_small,
        cols[0],
        cols[2],
    )
}

/// Places the results (see `results_placement_from`), the band divided by ratatui's
/// layout solver (see `placement_with_parts`).
pub fn results_placement(
    area: Rect,
    art_width: u16,
    art_height: u16,
    stats_width: u16,
    stats_height: u16,
    is_small: bool,
) -> (r: ResultsPlacement)
    requires
        area.fits(),
        !is_small ==> art_width + stats_width + 5 <= u16::MAX,
    ensures
        exists|cols: Seq<Rect>|
            #[trigger] placement_with_parts(
                area,
                art_width,
                art_height,
                stats_width,
                stats_height,
                is_small,
                cols,
                r,
            ),
{
    let ghost band = results_band(area, art_width, art_height, stats_width, stats_height);
    let stats_alone = ResultsPlacement::StatsOnly(
        Rect {
            x: area.x + area.width.saturating_sub(stats_width) / 2,
            y: area.y + area.height.saturating_sub(stats_height) / 2,
            width: if stats_width < area.width {
                stats_width
            } else {
                area.width
            },
            height: if stats_height < area.height {
                stats_height
            } else {
                area.height
            },
        },
    );
    if is_small {
        assert(placement_with_parts(
            area,
            art_width,
            art_height,
            stats_width,
            stats_height,
            is_small,
            seq![band, band, band],
            stats_alone,
        ));
        return stats_alone;
    }
    let total_needed_width = art_width + stats_width + 5;
    let tall = if stats_height > art_height {
        stats_height
    } else {
        art_height
    };
    let horizontal_padding = area.width.saturating_sub(total_needed_width) / 2;
    let vertical_padding = area.height.saturating_sub(tall) / 2;
    let layout_area = Rect {
        x: area.x + horizontal_padding,
        y: area.y + vertical_padding,
        width: if total_needed_width < area.width {
            total_needed_width
        } else {
            area.width
        },
        height: if tall < area.height {
            tall
        } else {
            area.height
        },
    };
    let band_right = layout_area.x.saturating_add(layout_area.width);
    let area_right = area.x + area.width;
    assert(layout_area == band);
    if band_right > area_right || layout_area.width == 0 {
        assert(placement_with_parts(
            area,
            art_width,
            art_height,
            stats_width,
            stats_height,
            is_small,
            seq![band, band, band],
            stats_alone,
        ));
        return stats_alone;
    }
    let constraints = vec![
        Constraint::Length(art_width),
        Constraint::Length(5),
        Constraint::Length(stats_width),
    ];
    assert(constraints@ =~= side_columns(art_width, stats_width));
    let chunks = split_area(Direction::Horizontal, &constraints, layout_area);
    proof {
        if art_width + stats_width + 5 <= area.width {
            let cs = constraints@;
            let len = axis_len(Direction::Horizontal, layout_area);
            assert(len == total_needed_width);
            lemma_three_parts(cs[0], cs[1], cs[2], len);
            assert(cs =~= seq![cs[0], cs[1], cs[2]]);
            assert(total_demand(cs, len) == 100 * len);
            assert(min_count(cs) == 0);
            assert(solvable_exactly(cs, len));
            assert(boundary(cs, len, 1) == 100 * art_width);
            assert(boundary(cs, len, 2) == 100 * (art_width + 5));
            assert(boundary(cs, len, 3) == 100 * len);
            lemma_round_whole(art_width as int);
            lemma_round_whole(art_width + 5);
            lemma_round_whole(len);
            lemma_round_whole(0);
            assert(chunks@[0] == exact_part(Direction::Horizontal, cs, layout_area, 0));
            assert(chunks@[2] == exact_part(Direction::Horizontal, cs, layout_area, 2));
        }
    }
    let art_area = chunks[0];
    let stats_area = chunks[2];
    let art_y_padding = art_area.height.saturating_sub(art_height) / 2;
    let centered_art_area = Rect {
        x: art_area.x,
        y: art_area.y + art_y_padding,
        width: art_area.width,
        height: if art_height < art_area.height {
            art_height
        } else {
            art_area.height
        },
    };
    let stats_y_padding = stats_area.height.saturating_sub(stats_height) / 2;
    let centered_stats_area = Rect {
        x: stats_area.x,
        y: stats_area.y + stats_y_padding,
        width: stats_area.width,
        height: if stats_height < stats_area.height {
            stats_height
        } else {
            stats_area.height
        },
    };
    let r = ResultsPlacement::SideBySide(centered_art_area, centered_stats_area);
    assert(placement_with_parts(
        area,
        art_width,
        art_height,
        stats_width,
        stats_height,
        is_small,
        chunks@,
        r,
    ));
    r
}

/// The sum of the widths.
pub open spec fn total_width(widths: Seq<u16>) -> int
    decreases widths.len(),
{
    if widths.len() == 0 {
        0
    } else {
        total_width(widths.drop_last()) + widths.last()
    }
}

/// Where a lone element goes in `area`: moved down so that its `text_height` lines stand
/// vertically centered.
pub fn single_element_area(area: Rect, text_height: u16) -> (r: Rect)
    requires
        area.fits(),
    ensures
        r == (Rect {
            x: area.x,
            y: (area.y + (if area.height >= text_height { (area.height - text_height) / 2 } else { 0 })) as u16,
            width: area.width,
            height: area.height,
        }),
{
    Rect {
        x: area.x,
        y: area.y + area.height.saturating_sub(text_height) / 2,
        width: area.width,
        height: area.height,
    }
}

/// Where a row of elements of the given widths starts in `area`: centered when they fit,
/// at the left edge otherwise.
pub open spec fn row_start(widths: Seq<u16>, area: Rect) -> int {
    let total = total_width(widths);
    if total <= area.width {
        area.x + (area.width - total) / 2
    } else {
        area.x as int
    }
}

/// The clickable regions of the first `n` elements of a row starting at column `start`: one
/// row tall (at most the area's height), as wide as the element, for each element that has
/// an action and a width.
pub open spec fn regions_upto(
    widths: Seq<u16>,
    actions: Seq<Option<TermiClickAction>>,
    start: int,
    area: Rect,
    n: nat,
) -> Seq<(Rect, TermiClickAction)>
    decreases n,
{
    if n == 0 {
        seq![]
    } else {
        let k = (n - 1) as nat;
        let rest = regions_upto(widths, actions, start, area, k);
        match actions[k as int] {
            Some(a) => if widths[k as int] > 0 {
                rest.push(
                    (
                        Rect {
                            x: (start + total_width(widths.take(k as int))) as u16,
                            y: area.y,
                            width: widths[k as int],
                            height: if area.height < 1 { area.height } else { 1u16 },
                        },
                        a,
                    ),
                )
            } else {
                rest
            },
            None => rest,
        }
    }
}

proof fn lemma_total_width_prefix(widths: Seq<u16>, k: int)
    requires
        0 <= k <= widths.len(),
    ensures
        0 <= total_width(widths.take(k)) <= total_width(widths),
    decreases widths.len(),
{
    if k < widths.len() {
        assert(widths.drop_last().take(k) =~= widths.take(k));
        lemma_total_width_prefix(widths.drop_last(), k);
    } else {
        assert(widths.take(k) =~= widths);
        if widths.len() > 0 {
            lemma_total_width_prefix(widths.drop_last(), k - 1);
        }
    }
}

proof fn lemma_regions_bounds(
    widths: Seq<u16>,
    actions: Seq<Option<TermiClickAction>>,
    start: int,
    area: Rect,
    n: nat,
)
    requires
        n <= widths.len(),
        widths.len() == actions.len(),
        0 <= start,
        start + total_width(widths) <= u16::MAX,
    ensures
        ({
            let r = regions_upto(widths, actions, start, area, n);
            &&& forall|i: int|
                0 <= i < r.len() ==> {
                    &&& start <= (#[trigger] r[i]).0.x
                    &&& r[i].0.x + r[i].0.width <= start + total_width(widths.take(n as int))
                    &&& r[i].0.width > 0
                    &&& r[i].0.y == area.y
                }
            &&& forall|i: int, j: int|
                0 <= i < j < r.len() ==> (#[trigger] r[i]).0.x + r[i].0.width <= (#[trigger] r[j]).0.x
        }),
    decreases n,
{
    if n > 0 {
        let k = (n - 1) as nat;
        lemma_regions_bounds(widths, actions, start, area, k);
        lemma_total_width_prefix(widths, k as int);
        lemma_total_width_prefix(widths, n as int);
        assert(widths.take(n as int).drop_last() =~= widths.take(k as int));
        let rest = regions_upto(widths, actions, start, area, k);
        let r = regions_upto(widths, actions, start, area, n);
        let tk = total_width(widths.take(k as int));
        assert(total_width(widths.take(n as int)) == tk + widths[k as int]);
        match actions[k as int] {
            Some(a) => {
                if widths[k as int] > 0 {
                    assert(r.len() == rest.len() + 1);
                    assert(r[rest.len() as int].0.x == start + tk);
                    assert forall|i: int, j: int| 0 <= i < j < r.len() implies (#[trigger] r[
                        i]).0.x + r[i].0.width <= (#[trigger] r[j]).0.x by {
                        if j == rest.len() {
                            assert(r[i] == rest[i]);
                        } else {
                            assert(r[i] == rest[i] && r[j] == rest[j]);
                        }
                    }
                    assert forall|i: int| 0 <= i < r.len() implies {
                        &&& start <= (#[trigger] r[i]).0.x
                        &&& r[i].0.x + r[i].0.width <= start + total_width(widths.take(n as int))
                        &&& r[i].0.width > 0
                        &&& r[i].0.y == area.y
                    } by {
                        if i < rest.len() {
                            assert(r[i] == rest[i]);
                        }
                    }
                }
            },
            None => {},
        }
    }
}

/// Law: the clickable regions of a row of elements lie on the row's first line, have a
/// width, and follow one another from left to right without overlapping.
pub proof fn lemma_element_regions_ordered(
    widths: Seq<u16>,
    actions: Seq<Option<TermiClickAction>>,
    area: Rect,
)
    requires
        widths.len() == actions.len(),
        area.fits(),
        area.x + total_width(widths) <= u16::MAX,
    ensures
        ({
            let r = regions_upto(widths, actions, row_start(widths, area), area, widths.len());
            &&& forall|i: int| 0 <= i < r.len() ==> (#[trigger] r[i]).0.width > 0 && r[i].0.y == area.y
            &&& forall|i: int, j: int|
                0 <= i < j < r.len() ==> (#[trigger] r[i]).0.x + r[i].0.width <= (#[trigger] r[j]).0.x
        }),
{
    let start = row_start(widths, area);
    lemma_total_width_prefix(widths, widths.len() as int);
    assert(start + total_width(widths) <= u16::MAX);
    lemma_regions_bounds(widths, actions, start, area, widths.len());
}

/// The clickable regions of a row of elements drawn in `area` (see `regions_upto`), and the
/// row's alignment: centered when the elements fit, left otherwise.
pub fn element_regions(widths: &[u16], actions: &[Option<TermiClickAction>], area: Rect) -> (r: (
    Vec<(Rect, TermiClickAction)>,
    Alignment,
))
    requires
        widths@.len() == actions@.len(),
        area.fits(),
        area.x + total_width(widths@) <= u16::MAX,
    ensures
        r.0@ == regions_upto(widths@, actions@, row_start(widths@, area), area, widths@.len()),
        r.1 == (if total_width(widths@) <= area.width { Alignment::Center } else { Alignment::Left }),
{
    let mut total: u16 = 0;
    let mut i: usize = 0;
    while i < widths.len()
        invariant
            i <= widths@.len(),
            area.x + total_width(widths@) <= u16::MAX,
            total == total_width(widths@.take(i as int)),
        decreases widths.len() - i,
    {
        assert(widths@.take(i + 1).drop_last() =~= widths@.take(i as int));
        proof {
            lemma_total_width_prefix(widths@, i + 1);
        }
        total = total + widths[i];
        i += 1;
    }
    assert(widths@.take(i as int) =~= widths@);
    let start_x = if total <= area.width {
        area.x + (area.width - total) / 2
    } else {
        area.x
    };
    let ghost start = row_start(widths@, area);
    let mut regions: Vec<(Rect, TermiClickAction)> = Vec::new();
    let mut offset: u16 = 0;
    let mut k: usize = 0;
    while k < widths.len()
        invariant
            widths@.len() == actions@.len(),
            k <= widths@.len(),
            area.fits(),
            area.x + total_width(widths@) <= u16::MAX,
            start == row_start(widths@, area),
            start_x == start,
            total == total_width(widths@),
            offset == total_width(widths@.take(k as int)),
            regions@ == regions_upto(widths@, actions@, start, area, k as nat),
        decreases widths.len() - k,
    {
        assert(widths@.take(k + 1).drop_last() =~= widths@.take(k as int));
        proof {
            lemma_total_width_prefix(widths@, k + 1);
            lemma_total_width_prefix(widths@, k as int);
        }
        let element_width = widths[k];
        match actions[k] {
            Some(action) => {
                if element_width > 0 {
                    let region_rect = Rect {
                        x: start_x + offset,
                        y: area.y,
                        width: element_width,
                        height: if area.height < 1 {
                            area.height
                        } else {
                            1
                        },
                    };
                    regions.push((region_rect, action));
                }
            },
            None => {},
        }
        offset = offset + element_width;
        k += 1;
    }
    let alignment = if total <= area.width {
        Alignment::Center
    } else {
        Alignment::Left
    };
    (regions, alignment)
}

/// The areas of the theme preview: the theme's name, the sample action bar, the language
/// line, the sample text and the sample command bar.
#[derive(Debug, Clone, Copy, PartialEq, Eq, Structural)]
pub struct ThemePreviewAreas {
    pub title: Rect,
    pub action_bar: Rect,
    pub language: Rect,
    pub sample_text: Rect,
    pub command_bar: Rect,
}

/// The rows inside the preview's borders: header, action bar, a gap, the typing area and
/// the command part.
pub open spec fn preview_rows() -> Seq<Constraint> {
    seq![
        Constraint::Length(4),
        Constraint::Length(1),
        Constraint::Length(3),
        Constraint::Min(5),
        Constraint::Length(6),
    ]
}

/// The rows of the preview's header: a gap, the title row and the rest.
pub open spec fn preview_header_rows() -> Seq<Constraint> {
    seq![Constraint::Length(1), Constraint::Length(1), Constraint::Min(0)]
}

/// The columns of the title row: a margin, the theme's name and the rest.
pub open spec fn preview_title_columns() -> Seq<Constraint> {
    seq![Constraint::Length(2), Constraint::Min(10), Constraint::Min(0)]
}

/// The rows of the preview's typing area: the language line and the sample text.
pub open spec fn preview_typing_rows() -> Seq<Constraint> {
    seq![Constraint::Length(2), Constraint::Min(3)]
}

/// The rows of the preview's command part, the third holding the command bar.
pub open spec fn preview_bottom_rows() -> Seq<Constraint> {
    seq![Constraint::Length(3), Constraint::Length(1), Constraint::Length(1), Constraint::Length(2)]
}

/// Whether `r` are the theme preview's areas in `area`, as ratatui's layout solver divides
/// the inside of the preview's borders (see `solved_split`): `p` its rows
/// (`preview_rows`); `h` the header's rows (`preview_header_rows`) and `n` the columns of
/// their middle row (`preview_title_columns`), the title being the second; `t` the typing
/// area's rows (`preview_typing_rows`); `b` the command part's rows
/// (`preview_bottom_rows`). The action bar, language line, sample text and command bar are
/// each the centred part (80%) of their row (see `centered_part`).
pub open spec fn theme_preview_with_parts(
    area: Rect,
    p: Seq<Rect>,
    h: Seq<Rect>,
    n: Seq<Rect>,
    t: Seq<Rect>,
    b: Seq<Rect>,
    r: ThemePreviewAreas,
) -> bool {
    let inner = bordered_inner_spec(area);
    &&& solved_split(Direction::Vertical, preview_rows(), inner, p)
    &&& solved_split(Direction::Vertical, preview_header_rows(), p[0], h)
    &&& solved_split(Direction::Horizontal, preview_title_columns(), h[1], n)
    &&& solved_split(Direction::Vertical, preview_typing_rows(), p[3], t)
    &&& solved_split(Direction::Vertical, preview_bottom_rows(), p[4], b)
    &&& r.title == n[1]
    &&& r.action_bar == centered_part(p[1], 80)
    &&& r.language == centered_part(t[0], 80)
    &&& r.sample_text == centered_part(t[1], 80)
    &&& r.command_bar == centered_part(b[2], 80)
}

/// Lays out the theme preview in `area` (see `theme_preview_with_parts`): inside its
/// borders, rows of 4 (header), 1 (action bar), 3 (gap), at least 5 (typing area) and 6
/// (command part); the header's rows 1, 1 and the rest, its title row's columns 2, at
/// least 10 (the name) and the rest; the typing area's rows 2 (language) and at least 3
/// (text); the command part's rows 3, 1, 1 (the bar) and 2.
pub fn theme_preview_areas(area: Rect) -> (r: ThemePreviewAreas)
    ensures
        exists|p: Seq<Rect>, h: Seq<Rect>, n: Seq<Rect>, t: Seq<Rect>, b: Seq<Rect>|
            #[trigger] theme_preview_with_parts(area, p, h, n, t, b, r),
{
    let inner = bordered_inner(area);
    let rows = vec![
        Constraint::Length(4),
        Constraint::Length(1),
        Constraint::Length(3),
        Constraint::Min(5),
        Constraint::Length(6),
    ];
    assert(rows@ =~= preview_rows());
    let preview = split_area(Direction::Vertical, &rows, inner);
    let header_rows = vec![Constraint::Length(1), Constraint::Length(1), Constraint::Min(0)];
    assert(header_rows@ =~= preview_header_rows());
    let header = split_area(Direction::Vertical, &header_rows, preview[0]);
    let title_columns = vec![Constraint::Length(2), Constraint::Min(10), Constraint::Min(0)];
    assert(title_columns@ =~= preview_title_columns());
    let title_parts = split_area(Direction::Horizontal, &title_columns, header[1]);
    let action_bar = crate::ui::utils::apply_horizontal_centering(preview[1], 80);
    let typing_rows = vec![Constraint::Length(2), Constraint::Min(3)];
    assert(typing_rows@ =~= preview_typing_rows());
    let typing = split_area(Direction::Vertical, &typing_rows, preview[3]);
    let language = crate::ui::utils::apply_horizontal_centering(typing[0], 80);
    let sample_text = crate::ui::utils::apply_horizontal_centering(typing[1], 80);
    let bottom_rows = vec![
        Constraint::Length(3),
        Constraint::Length(1),
        Constraint::Length(1),
        Constraint::Length(2),
    ];
    assert(bottom_rows@ =~= preview_bottom_rows());
    let bottom = split_area(Direction::Vertical, &bottom_rows, preview[4]);
    let command_bar = crate::ui::utils::apply_horizontal_centering(bottom[2], 80);
    let r = ThemePreviewAreas {
        title: title_parts[1],
        action_bar,
        language,
        sample_text,
        command_bar,
    };
    assert(theme_preview_with_parts(area, preview@, header@, title_parts@, typing@, bottom@, r));
    r
}

} // verus!
