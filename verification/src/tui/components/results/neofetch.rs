//! The results screen drawn like a system-information tool: ASCII art beside a column of
//! statistics, the art left out where the screen is too narrow for both.

use vstd::prelude::*;
use crate::tui::components::results::bottom_bar::{display_width, str_width};
use crate::utils::{decimal, push_decimal};

verus! {

/// Columns between the art and the statistics.
pub const SPACING: usize = 4;

/// Columns the screen keeps free at its sides.
pub const MIN_PADDING: usize = 4;

/// How the screen is laid out.
#[derive(Debug, Clone, Copy, PartialEq, Eq, Structural)]
pub struct NeofetchLayout {
    /// Whether the art shows.
    pub show_ascii: bool,
    /// The columns the art takes (0 without it).
    pub ascii_width: usize,
    /// The row the statistics begin on.
    pub stats_offset: usize,
    /// The rows drawn.
    pub max_lines: usize,
    /// Rows above the content.
    pub vertical_padding: u16,
    /// Columns left of (and right of) the content.
    pub horizontal_padding: u16,
}

/// `a - b`, or 0 when `b` is larger.
pub open spec fn sat_sub(a: int, b: int) -> int {
    if a >= b {
        a - b
    } else {
        0
    }
}

/// The layout of the screen in `width` by `height` cells for art `raw_ascii_width` columns
/// wide and `ascii_lines` rows tall, and `stats_count` statistics rows `stats_width` columns
/// wide. The art shows when it fits beside the statistics within the width less the side
/// margins; the statistics then sit vertically centered on the art (which starts one row
/// down), and below them come an empty row and a row of color blocks. The content is
/// centered; when it is as wide as the screen, two columns stay free on the left.
pub open spec fn neofetch_layout_spec(
    width: u16,
    height: u16,
    raw_ascii_width: usize,
    ascii_lines: usize,
    stats_width: usize,
    stats_count: usize,
) -> NeofetchLayout {
    let available = sat_sub(width as int, MIN_PADDING as int);
    let show = raw_ascii_width + SPACING + stats_width <= available;
    let ascii_width = if show { raw_ascii_width as int } else { 0 };
    let ascii_height = if ascii_lines < usize::MAX { ascii_lines + 1 } else { usize::MAX as int };
    let stats_offset = if show { sat_sub(ascii_height, stats_count as int) / 2 } else { 0 };
    let max_lines = if show {
        let s = stats_offset + stats_count + 2;
        if ascii_height > s { ascii_height } else { s }
    } else {
        stats_count + 2
    };
    let content_height = (max_lines as usize) as u16;
    let content_width = if show { ascii_width + SPACING + stats_width } else { stats_width as int };
    NeofetchLayout {
        show_ascii: show,
        ascii_width: ascii_width as usize,
        stats_offset: stats_offset as usize,
        max_lines: max_lines as usize,
        vertical_padding: (if height > content_height { (height - content_height) / 2 } else { 0 }) as u16,
        horizontal_padding: (if width > content_width {
            ((width - content_width) / 2) as usize as u16
        } else {
            (MIN_PADDING / 2) as u16
        }),
    }
}

/// Lays out the screen (see `neofetch_layout_spec`).
pub fn neofetch_layout(
    width: u16,
    height: u16,
    raw_ascii_width: usize,
    ascii_lines: usize,
    stats_width: usize,
    stats_count: usize,
) -> (r: NeofetchLayout)
    requires
        raw_ascii_width + SPACING + stats_width <= usize::MAX,
        stats_count + 2 <= usize::MAX,
        ascii_lines + stats_count + 2 <= usize::MAX,
    ensures
        r == neofetch_layout_spec(width, height, raw_ascii_width, ascii_lines, stats_width, stats_count),
{
    let available_width = width.saturating_sub(MIN_PADDING as u16) as usize;
    let required_width_with_ascii = raw_ascii_width + SPACING + stats_width;
    let (ascii_width, show_ascii) = if required_width_with_ascii <= available_width {
        (raw_ascii_width, true)
    } else {
        (0, false)
    };
    let stats_offset = if show_ascii {
        let ascii_height = ascii_lines.saturating_add(1);
        (ascii_height.saturating_sub(stats_count)) / 2
    } else {
        0
    };
    let max_lines = if show_ascii {
        let ascii_height = ascii_lines.saturating_add(1);
        let stats_and_colors_height = stats_offset + stats_count + 2;
        if ascii_height > stats_and_colors_height {
            ascii_height
        } else {
            stats_and_colors_height
        }
    } else {
        stats_count + 2
    };
    let content_height = max_lines as u16;
    let vertical_padding = if height > content_height {
        (height - content_height) / 2
    } else {
        0
    };
    let content_width = if show_ascii {
        ascii_width + SPACING + stats_width
    } else {
        stats_width
    };
    let horizontal_padding = if width as usize > content_width {
        ((width as usize - content_width) / 2) as u16
    } else {
        (MIN_PADDING / 2) as u16
    };
    NeofetchLayout {
        show_ascii,
        ascii_width,
        stats_offset,
        max_lines,
        vertical_padding,
        horizontal_padding,
    }
}

/// What the statistics column holds on a row.
#[derive(Debug, Clone, Copy, PartialEq, Eq, Structural)]
pub enum StatsRow {
    /// The statistics entry of that index (the user line, the rule under it, then the
    /// statistics).
    Entry(usize),
    /// The empty row after the statistics.
    Gap,
    /// The row of color blocks.
    Colors,
    /// Nothing.
    Nothing,
}

/// What row `i` holds: in the art column (when the art shows) the art line of that index,
/// or blanks (`Some(None)`); and in the statistics column, per `StatsRow`.
pub open spec fn row_spec(i: int, layout: NeofetchLayout, ascii_lines: int, stats_count: int) -> (
    Option<Option<usize>>,
    StatsRow,
) {
    let art = if layout.show_ascii {
        if i > 0 && i - 1 < ascii_lines {
            Some(Some((i - 1) as usize))
        } else {
            Some(None)
        }
    } else {
        None
    };
    let off = layout.stats_offset as int;
    let stats = if off <= i < off + stats_count {
        StatsRow::Entry((i - off) as usize)
    } else if i == off + stats_count {
        StatsRow::Gap
    } else if i == off + stats_count + 1 {
        StatsRow::Colors
    } else {
        StatsRow::Nothing
    };
    (art, stats)
}

/// The contents of each drawn row (see `row_spec`).
pub fn neofetch_rows(layout: NeofetchLayout, ascii_lines: usize, stats_count: usize) -> (r: Vec<
    (Option<Option<usize>>, StatsRow),
>)
    requires
        layout.stats_offset + stats_count + 2 <= usize::MAX,
    ensures
        r@.len() == layout.max_lines,
        forall|i: int|
            0 <= i < r@.len() ==> #[trigger] r@[i] == row_spec(
                i,
                layout,
                ascii_lines as int,
                stats_count as int,
            ),
{
    let mut rows: Vec<(Option<Option<usize>>, StatsRow)> = Vec::new();
    let mut i: usize = 0;
    while i < layout.max_lines
        invariant
            layout.stats_offset + stats_count + 2 <= usize::MAX,
            i <= layout.max_lines,
            rows@.len() == i,
            forall|j: int|
                0 <= j < i ==> #[trigger] rows@[j] == row_spec(
                    j,
                    layout,
                    ascii_lines as int,
                    stats_count as int,
                ),
        decreases layout.max_lines - i,
    {
        let art = if layout.show_ascii {
            if i > 0 && i - 1 < ascii_lines {
                Some(Some(i - 1))
            } else {
                Some(None)
            }
        } else {
            None
        };
        let off = layout.stats_offset;
        let stats = if i >= off && i < off + stats_count {
            StatsRow::Entry(i - off)
        } else if i == off + stats_count {
            StatsRow::Gap
        } else if i == off + stats_count + 1 {
            StatsRow::Colors
        } else {
            StatsRow::Nothing
        };
        rows.push((art, stats));
        i += 1;
    }
    rows
}

/// The mode as the statistics name it: "Time (30s)" or "Words (50)".
pub open spec fn neofetch_mode_spec(is_time_mode: bool, value: nat) -> Seq<char> {
    if is_time_mode {
        "Time ("@ + decimal(value) + "s)"@
    } else {
        "Words ("@ + decimal(value) + ")"@
    }
}

/// The mode as the statistics name it (see `neofetch_mode_spec`).
pub fn neofetch_mode_text(is_time_mode: bool, value: u64) -> (r: String)
    ensures
        r@ == neofetch_mode_spec(is_time_mode, value as nat),
{
    let mut s = if is_time_mode {
        "Time (".to_owned()
    } else {
        "Words (".to_owned()
    };
    push_decimal(&mut s, value as u128);
    if is_time_mode {
        s.append("s)");
    } else {
        s.append(")");
    }
    s
}

/// The keystrokes as the statistics give them: the correct ones, then in brackets all of
/// them, correct and wrong.
pub fn keystrokes_text(correct: u64, errors: u64) -> (r: String)
    requires
        correct + errors <= u64::MAX,
    ensures
        r@ == decimal(correct as nat) + " ("@ + decimal((correct + errors) as nat) + ")"@,
{
    let mut s = String::new();
    push_decimal(&mut s, correct as u128);
    s.append(" (");
    push_decimal(&mut s, (correct + errors) as u128);
    s.append(")");
    s
}

/// The display widths of the statistics' labels and values, pair by pair, as
/// `stats_width` takes them.
pub fn stat_entry_widths(labels: &Vec<String>, values: &Vec<String>) -> (r: Vec<(usize, usize)>)
    requires
        labels@.len() == values@.len(),
    ensures
        r@.len() == labels@.len(),
        forall|i: int|
            0 <= i < r@.len() ==> #[trigger] r@[i] == (display_width(labels@[i]@), display_width(values@[i]@)),
{
    let mut r: Vec<(usize, usize)> = Vec::new();
    let mut i: usize = 0;
    while i < labels.len()
        invariant
            labels@.len() == values@.len(),
            i <= labels@.len(),
            r@.len() == i,
            forall|j: int|
                0 <= j < i ==> #[trigger] r@[j] == (display_width(labels@[j]@), display_width(values@[j]@)),
        decreases labels.len() - i,
    {
        let label_width = str_width(labels[i].as_str());
        let value_width = str_width(values[i].as_str());
        r.push((label_width, value_width));
        i += 1;
    }
    r
}

/// The width of the statistics column: the widest of the user line (`header_width`), the
/// rule under it (the user name's bytes, one, and nine more), and each statistic's label,
/// two columns for ": ", and value (`entries`, as (label width, value width)).
pub open spec fn stats_width_spec(header_width: usize, username_len: usize, entries: Seq<(usize, usize)>) -> int
    decreases entries.len(),
{
    if entries.len() == 0 {
        let rule = username_len + 1 + 9;
        if header_width > rule { header_width as int } else { rule }
    } else {
        let rest = stats_width_spec(header_width, username_len, entries.drop_last());
        let last = entries.last().0 + 2 + entries.last().1;
        if last > rest { last } else { rest }
    }
}

/// The width of the statistics column (see `stats_width_spec`).
pub fn stats_width(header_width: usize, username_len: usize, entries: &[(usize, usize)]) -> (r: usize)
    requires
        username_len + 10 <= usize::MAX,
        forall|i: int| 0 <= i < entries@.len() ==> (#[trigger] entries@[i]).0 + 2 + entries@[i].1 <= usize::MAX,
    ensures
        r == stats_width_spec(header_width, username_len, entries@),
{
    let rule = username_len + 1 + 9;
    let mut best = if header_width > rule {
        header_width
    } else {
        rule
    };
    let mut i: usize = 0;
    assert(entries@.take(0) =~= Seq::<(usize, usize)>::empty());
    while i < entries.len()
        invariant
            username_len + 10 <= usize::MAX,
            forall|k: int| 0 <= k < entries@.len() ==> (#[trigger] entries@[k]).0 + 2 + entries@[k].1 <= usize::MAX,
            i <= entries@.len(),
            best == stats_width_spec(header_width, username_len, entries@.take(i as int)),
        decreases entries.len() - i,
    {
        let (label_width, value_width) = entries[i];
        assert(entries@.take(i + 1).drop_last() =~= entries@.take(i as int));
        assert(entries@[i as int] == (label_width, value_width));
        let w = label_width + 2 + value_width;
        if w > best {
            best = w;
        }
        i += 1;
    }
    assert(entries@.take(i as int) =~= entries@);
    best
}

} // verus!
