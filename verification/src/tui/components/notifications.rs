//! Sizing and stacking of notification boxes.

use vstd::prelude::*;
use crate::geometry::Rect;
use crate::notifications::{Notification, NotificationPosition, NotificationSeverity};
use crate::text::{line_lengths, lines_of};

verus! {

pub const MIN_TERMINAL_HEIGHT: u16 = 15;

pub const NOTIFICATION_WIDTH: u16 = 35;

pub const NOTIFICATION_MARGIN_LEFT: u16 = 2;

pub const NOTIFICATION_MARGIN_RIGHT: u16 = 0;

pub const NOTIFICATION_PADDING: u16 = 1;

/// `a / b` rounded up.
pub open spec fn div_ceil(a: int, b: int) -> int {
    if a % b == 0 {
        a / b
    } else {
        a / b + 1
    }
}

/// Rows a line of `len` chars takes when wrapped at `width` columns (an empty line takes
/// one); the char count is taken modulo 2^16 as the `u16` it is converted to.
pub open spec fn wrapped_rows(len: int, width: int) -> int {
    if len == 0 {
        1
    } else {
        div_ceil((len as u16) as int, width)
    }
}

/// Rows all lines of the given lengths take when wrapped at `width` columns.
pub open spec fn wrapped_total(lens: Seq<int>, width: int) -> int
    decreases lens.len(),
{
    if lens.len() == 0 {
        0
    } else {
        wrapped_total(lens.drop_last(), width) + wrapped_rows(lens.last(), width)
    }
}

/// The char count of each line of `text`.
pub open spec fn text_line_lengths(text: Seq<char>) -> Seq<int> {
    lines_of(text).map_values(|l: Seq<char>| l.len() as int)
}

/// Rows `text` takes wrapped at `width` columns, kept between 1 and 4; one row when there
/// are no columns.
pub open spec fn wrapped_lines_spec(text: Seq<char>, width: int) -> int {
    if width == 0 {
        1
    } else {
        let total = wrapped_total(text_line_lengths(text), width);
        if total < 1 {
            1
        } else if total > 4 {
            4
        } else {
            total
        }
    }
}

/// The height of a notification box: two borders, the title, a spacer, and the wrapped
/// message (none when the message is empty).
pub open spec fn notification_height_spec(message: Seq<char>, width: u16) -> int {
    let content_width = if width >= 2 * (NOTIFICATION_PADDING + 1) {
        width - 2 * (NOTIFICATION_PADDING + 1)
    } else {
        0
    };
    let message_lines = if message.len() == 0 {
        0
    } else {
        let n = wrapped_lines_spec(message, content_width);
        if n < 1 {
            1
        } else {
            n
        }
    };
    2 + 1 + 1 + message_lines
}

pub proof fn lemma_wrapped_total_nonneg(lens: Seq<int>, width: int)
    requires
        width > 0,
    ensures
        wrapped_total(lens, width) >= 0,
    decreases lens.len(),
{
    if lens.len() > 0 {
        lemma_wrapped_total_nonneg(lens.drop_last(), width);
    }
}

pub struct NotificationComponent;

impl NotificationComponent {
    /// The icon before a notification's title.
    pub fn icon(severity: NotificationSeverity) -> (r: &'static str)
        ensures
            r@ == (match severity {
                NotificationSeverity::Info => "i"@,
                NotificationSeverity::Warning => "!"@,
                NotificationSeverity::Error => "x"@,
            }),
    {
        match severity {
            NotificationSeverity::Info => "i",
            NotificationSeverity::Warning => "!",
            NotificationSeverity::Error => "x",
        }
    }

    /// Are we tall and wide enough to ride?
    pub fn has_sufficient_space(area: Rect) -> (r: bool)
        ensures
            r == (area.width >= NOTIFICATION_WIDTH && area.height >= MIN_TERMINAL_HEIGHT),
    {
        area.width >= NOTIFICATION_WIDTH && area.height >= MIN_TERMINAL_HEIGHT
    }

    /// The height a notification needs in a box `width` columns wide.
    pub fn calculate_height(notification: &Notification, width: u16) -> (r: u16)
        requires
            width > 2 * (NOTIFICATION_PADDING + 1) ==> wrapped_total(
                text_line_lengths(notification.message@),
                width - 2 * (NOTIFICATION_PADDING + 1),
            ) <= u16::MAX,
        ensures
            r == notification_height_spec(notification.message@, width),
    {
        let content_width = width.saturating_sub(2 * (NOTIFICATION_PADDING + 1));
        let title_height: u16 = 1;
        let message_lines: u16 = if notification.message.as_str().is_empty() {
            0
        } else {
            let n = Self::calculate_wrapped_lines(notification.message.as_str(), content_width);
            if n < 1 {
                1
            } else {
                n
            }
        };
        2 + title_height + 1 + message_lines
    }

    /// How many rows `text` takes wrapped at `max_width` columns, between 1 and 4.
    pub fn calculate_wrapped_lines(text: &str, max_width: u16) -> (r: u16)
        requires
            max_width > 0 ==> wrapped_total(text_line_lengths(text@), max_width as int) <= u16::MAX,
        ensures
            r == wrapped_lines_spec(text@, max_width as int),
    {
        if max_width == 0 {
            return 1;
        }
        let lens = line_lengths(text);
        let ghost all = text_line_lengths(text@);
        assert(lens@.map_values(|n: usize| n as int) == all);
        let mut total_lines: u16 = 0;
        let mut i: usize = 0;
        while i < lens.len()
            invariant
                max_width > 0,
                lens@.map_values(|n: usize| n as int) == all,
                wrapped_total(all, max_width as int) <= u16::MAX,
                i <= lens.len(),
                total_lines == wrapped_total(all.take(i as int), max_width as int),
            decreases lens.len() - i,
        {
            let line_len = lens[i];
            assert(all[i as int] == line_len as int);
            assert(all.take(i + 1).drop_last() =~= all.take(i as int));
            proof {
                lemma_wrapped_total_nonneg(all.take(i as int), max_width as int);
                lemma_wrapped_total_prefix(all, (i + 1) as int, max_width as int);
            }
            if line_len == 0 {
                total_lines += 1;
            } else {
                let l = line_len as u16;
                let q = l / max_width;
                let rows = if l % max_width == 0 {
                    q
                } else {
                    q + 1
                };
                total_lines += rows;
            }
            i += 1;
        }
        assert(all.take(i as int) =~= all);
        if total_lines < 1 {
            1
        } else if total_lines > 4 {
            4
        } else {
            total_lines
        }
    }

    /// Where the stack of notifications begins, `width` wide and `total_height` tall, in the
    /// given corner of `area`.
    pub fn calculate_start_position(
        area: Rect,
        position: NotificationPosition,
        width: u16,
        total_height: u16,
        margin_left: u16,
        margin_right: u16,
    ) -> (r: (u16, u16))
        requires
            area.x + margin_left <= u16::MAX,
            area.x + area.width <= u16::MAX,
            area.y + area.height <= u16::MAX,
            width + margin_right <= u16::MAX,
        ensures
            r == start_position_spec(area, position, width, total_height, margin_left, margin_right),
    {
        match position {
            NotificationPosition::TopLeft => (area.x + margin_left, area.y),
            NotificationPosition::TopRight => (
                area.x + area.width.saturating_sub(width + margin_right),
                area.y,
            ),
            NotificationPosition::BottomLeft => (
                area.x + margin_left,
                area.y + area.height.saturating_sub(total_height),
            ),
            NotificationPosition::BottomRight => (
                area.x + area.width.saturating_sub(width + margin_right),
                area.y + area.height.saturating_sub(total_height),
            ),
        }
    }

    /// Whether a notification box ends within the parent area.
    pub fn is_within_bounds(notification_area: Rect, parent_area: Rect) -> (r: bool)
        requires
            notification_area.fits(),
            parent_area.fits(),
        ensures
            r == (notification_area.y + notification_area.height <= parent_area.y
                + parent_area.height && notification_area.x + notification_area.width
                <= parent_area.x + parent_area.width),
    {
        notification_area.y + notification_area.height <= parent_area.y + parent_area.height
            && notification_area.x + notification_area.width <= parent_area.x + parent_area.width
    }

    /// The boxes the notifications are drawn in: each as tall as its content needs at the
    /// common box width, stacked from the given corner of `area` and cut before the first
    /// one that would leave it.
    pub fn notification_areas(
        notifications: &[Notification],
        area: Rect,
        position: NotificationPosition,
    ) -> (r: Vec<Rect>)
        requires
            area.fits(),
            area.x + NOTIFICATION_MARGIN_LEFT <= u16::MAX,
            forall|i: int|
                0 <= i < notifications@.len() ==> height_computable(
                    #[trigger] notifications@[i].message@,
                    box_width(area),
                ),
            sum_heights(box_heights(notifications@, box_width(area))) <= u16::MAX,
            stack_fits(
                box_heights(notifications@, box_width(area)),
                area,
                position,
                box_width(area),
                NOTIFICATION_MARGIN_LEFT,
                NOTIFICATION_MARGIN_RIGHT,
            ),
        ensures
            r@ == stack_spec(
                box_heights(notifications@, box_width(area)),
                area,
                position,
                box_width(area),
                NOTIFICATION_MARGIN_LEFT,
                NOTIFICATION_MARGIN_RIGHT,
            ),
    {
        let narrower = area.width.saturating_sub(4);
        let notification_width = if NOTIFICATION_WIDTH < narrower {
            NOTIFICATION_WIDTH
        } else {
            narrower
        };
        let ghost wanted = box_heights(notifications@, box_width(area));
        let mut heights: Vec<u16> = Vec::new();
        let mut i: usize = 0;
        while i < notifications.len()
            invariant
                notification_width == box_width(area),
                wanted == box_heights(notifications@, box_width(area)),
                i <= notifications@.len(),
                forall|j: int|
                    0 <= j < notifications@.len() ==> height_computable(
                        #[trigger] notifications@[j].message@,
                        box_width(area),
                    ),
                heights@ == wanted.take(i as int),
            decreases notifications.len() - i,
        {
            assert(height_computable(notifications@[i as int].message@, box_width(area)));
            let h = Self::calculate_height(&notifications[i], notification_width);
            heights.push(h);
            assert(heights@ =~= wanted.take(i + 1));
            i += 1;
        }
        assert(wanted.take(i as int) =~= wanted);
        stack_boxes(
            heights.as_slice(),
            area,
            position,
            notification_width,
            NOTIFICATION_MARGIN_LEFT,
            NOTIFICATION_MARGIN_RIGHT,
        )
    }
}

/// The rows of a prefix of the lines never exceed the rows of all of them.
pub proof fn lemma_wrapped_total_prefix(lens: Seq<int>, k: int, width: int)
    requires
        width > 0,
        0 <= k <= lens.len(),
    ensures
        wrapped_total(lens.take(k), width) <= wrapped_total(lens, width),
    decreases lens.len(),
{
    if k < lens.len() {
        assert(lens.drop_last().take(k) =~= lens.take(k));
        lemma_wrapped_total_prefix(lens.drop_last(), k, width);
    } else {
        assert(lens.take(k) =~= lens);
    }
}

/// The top-left corner of a stack of boxes `width` wide and `total_height` tall in the
/// given corner of `area`: `margin_left` in from the left edge, or `margin_right` in from
/// the right edge; at the top, or at the bottom.
pub open spec fn start_position_spec(
    area: Rect,
    position: NotificationPosition,
    width: u16,
    total_height: u16,
    margin_left: u16,
    margin_right: u16,
) -> (u16, u16) {
    let left = (area.x + margin_left) as u16;
    let right = (area.x + sat_sub(area.width, (width + margin_right) as u16)) as u16;
    let bottom = (area.y + sat_sub(area.height, total_height)) as u16;
    match position {
        NotificationPosition::TopLeft => (left, area.y),
        NotificationPosition::TopRight => (right, area.y),
        NotificationPosition::BottomLeft => (left, bottom),
        NotificationPosition::BottomRight => (right, bottom),
    }
}

/// The sum of the heights.
pub open spec fn sum_heights(heights: Seq<u16>) -> int
    decreases heights.len(),
{
    if heights.len() == 0 {
        0
    } else {
        sum_heights(heights.drop_last()) + heights.last()
    }
}

/// Boxes `width` wide and of the given heights, stacked downwards from (`x`, `y`), up to
/// (not including) the first one that would reach past the bottom or right edge of `area`.
pub open spec fn stacked_boxes(heights: Seq<u16>, x: int, y: int, width: int, area: Rect) -> Seq<
    Rect,
>
    decreases heights.len(),
{
    if heights.len() == 0 {
        seq![]
    } else {
        let h = heights[0];
        if y + h <= area.y + area.height && x + width <= area.x + area.width {
            seq![Rect { x: x as u16, y: y as u16, width: width as u16, height: h }]
                + stacked_boxes(heights.skip(1), x, y + h, width, area)
        } else {
            seq![]
        }
    }
}

/// Whether every box that `stacked_boxes` tries, the first refused one included, has its
/// bottom and right edges in the `u16` grid.
pub open spec fn stack_in_grid(heights: Seq<u16>, x: int, y: int, width: int, area: Rect) -> bool
    decreases heights.len(),
{
    if heights.len() == 0 {
        true
    } else {
        let h = heights[0];
        &&& y + h <= u16::MAX
        &&& x + width <= u16::MAX
        &&& (y + h <= area.y + area.height && x + width <= area.x + area.width) ==> stack_in_grid(
            heights.skip(1),
            x,
            y + h,
            width,
            area,
        )
    }
}

/// Where a stack of boxes of the given heights starts (see `start_position_spec`).
pub open spec fn stack_start(
    heights: Seq<u16>,
    area: Rect,
    position: NotificationPosition,
    width: u16,
    margin_left: u16,
    margin_right: u16,
) -> (u16, u16) {
    start_position_spec(
        area,
        position,
        width,
        sum_heights(heights) as u16,
        margin_left,
        margin_right,
    )
}

/// Whether the boxes of the stack that are tried have their edges in the grid.
pub open spec fn stack_fits(
    heights: Seq<u16>,
    area: Rect,
    position: NotificationPosition,
    width: u16,
    margin_left: u16,
    margin_right: u16,
) -> bool {
    let start = stack_start(heights, area, position, width, margin_left, margin_right);
    stack_in_grid(heights, stack_x(start.0), start.1 as int, width as int, area)
}

/// The boxes of a stack of the given heights in the given corner of `area`: from one
/// column left of the start, down to the first box that would leave the area.
pub open spec fn stack_spec(
    heights: Seq<u16>,
    area: Rect,
    position: NotificationPosition,
    width: u16,
    margin_left: u16,
    margin_right: u16,
) -> Seq<Rect> {
    let start = stack_start(heights, area, position, width, margin_left, margin_right);
    stacked_boxes(heights, stack_x(start.0), start.1 as int, width as int, area)
}

/// The width of a notification box in `area`: 35 columns, or the area's width less 4
/// where that is smaller.
pub open spec fn box_width(area: Rect) -> u16 {
    let w = sat_sub(area.width, 4);
    (if NOTIFICATION_WIDTH < w { NOTIFICATION_WIDTH as int } else { w }) as u16
}

/// Whether the rows of a message wrapped into a box `width` wide can be counted in a
/// `u16`.
pub open spec fn height_computable(message: Seq<char>, width: u16) -> bool {
    width > 2 * (NOTIFICATION_PADDING + 1) ==> wrapped_total(
        text_line_lengths(message),
        width - 2 * (NOTIFICATION_PADDING + 1),
    ) <= u16::MAX
}

/// The heights of the notifications' boxes, `width` wide.
pub open spec fn box_heights(notifications: Seq<Notification>, width: u16) -> Seq<u16> {
    notifications.map_values(|n: Notification| notification_height_spec(n.message@, width) as u16)
}

/// The first column of a stack that starts at `start_x`: one to its left, where there is one.
pub open spec fn stack_x(start_x: u16) -> int {
    if start_x >= 1 {
        start_x - 1
    } else {
        0
    }
}

/// The boxes for notifications of the given heights in `area`, stacked down from the given
/// corner (see `start_position_spec`), one column left of the start, and cut before the
/// first box that would leave the area.
pub fn stack_boxes(
    heights: &[u16],
    area: Rect,
    position: NotificationPosition,
    width: u16,
    margin_left: u16,
    margin_right: u16,
) -> (r: Vec<Rect>)
    requires
        area.fits(),
        area.x + margin_left <= u16::MAX,
        width + margin_right <= u16::MAX,
        sum_heights(heights@) <= u16::MAX,
        stack_fits(heights@, area, position, width, margin_left, margin_right),
    ensures
        r@ == stack_spec(heights@, area, position, width, margin_left, margin_right),
{
    let mut total_height: u16 = 0;
    let mut i: usize = 0;
    while i < heights.len()
        invariant
            i <= heights@.len(),
            sum_heights(heights@) <= u16::MAX,
            total_height == sum_heights(heights@.take(i as int)),
        decreases heights.len() - i,
    {
        assert(heights@.take(i + 1).drop_last() =~= heights@.take(i as int));
        proof {
            lemma_sum_heights_prefix(heights@, i + 1);
        }
        total_height = total_height + heights[i];
        i += 1;
    }
    assert(heights@.take(i as int) =~= heights@);
    let (start_x, start_y) = NotificationComponent::calculate_start_position(
        area,
        position,
        width,
        total_height,
        margin_left,
        margin_right,
    );
    let x = start_x.saturating_sub(1);
    let ghost all = stacked_boxes(heights@, x as int, start_y as int, width as int, area);
    let mut boxes: Vec<Rect> = Vec::new();
    let mut current_y = start_y;
    let mut k: usize = 0;
    let mut stopped = false;
    assert(heights@.skip(0) =~= heights@);
    while k < heights.len() && !stopped
        invariant
            k <= heights@.len(),
            area.fits(),
            all == stacked_boxes(heights@, x as int, start_y as int, width as int, area),
            !stopped ==> all == boxes@ + stacked_boxes(
                heights@.skip(k as int),
                x as int,
                current_y as int,
                width as int,
                area,
            ),
            !stopped ==> stack_in_grid(
                heights@.skip(k as int),
                x as int,
                current_y as int,
                width as int,
                area,
            ),
            stopped ==> all == boxes@,
        decreases heights.len() - k + (if stopped { 0int } else { 1int }),
    {
        let ghost rest = heights@.skip(k as int);
        assert(rest[0] == heights[k as int]);
        assert(rest.skip(1) =~= heights@.skip(k + 1));
        let notification_area = Rect { x, y: current_y, width, height: heights[k] };
        if !NotificationComponent::is_within_bounds(notification_area, area) {
            assert(boxes@ + Seq::<Rect>::empty() =~= boxes@);
            stopped = true;
        } else {
            let ghost before = boxes@;
            boxes.push(notification_area);
            assert(before + stacked_boxes(rest, x as int, current_y as int, width as int, area)
                =~= boxes@ + stacked_boxes(
                heights@.skip(k + 1),
                x as int,
                current_y + heights[k as int],
                width as int,
                area,
            ));
            current_y = current_y.saturating_add(heights[k]);
            k += 1;
        }
    }
    if !stopped {
        assert(heights@.skip(k as int) =~= Seq::<u16>::empty());
        assert(boxes@ + Seq::<Rect>::empty() =~= boxes@);
    }
    boxes
}

/// The heights of a prefix of the boxes add up to no more than all of them.
pub proof fn lemma_sum_heights_prefix(heights: Seq<u16>, k: int)
    requires
        0 <= k <= heights.len(),
    ensures
        0 <= sum_heights(heights.take(k)) <= sum_heights(heights),
    decreases heights.len(),
{
    if k < heights.len() {
        assert(heights.drop_last().take(k) =~= heights.take(k));
        lemma_sum_heights_prefix(heights.drop_last(), k);
    } else {
        assert(heights.take(k) =~= heights);
        if heights.len() > 0 {
            lemma_sum_heights_prefix(heights.drop_last(), k - 1);
        }
    }
}

/// Law: the stacked boxes stay inside the area and follow one another down without gap or
/// overlap, each as tall as its notification, from the start row.
pub proof fn lemma_stacked_boxes_inside(heights: Seq<u16>, x: int, y: int, width: int, area: Rect)
    requires
        area.fits(),
        0 <= x,
        0 <= y,
        0 <= width,
    ensures
        ({
            let b = stacked_boxes(heights, x, y, width, area);
            &&& b.len() <= heights.len()
            &&& b.len() > 0 ==> b[0].y == y
            &&& forall|i: int|
                0 <= i < b.len() ==> {
                    &&& (#[trigger] b[i]).y + b[i].height <= area.y + area.height
                    &&& b[i].x + b[i].width <= area.x + area.width
                    &&& b[i].x == x
                    &&& b[i].height == heights[i]
                }
            &&& forall|i: int| 0 < i < b.len() ==> #[trigger] b[i].y == b[i - 1].y + b[i - 1].height
        }),
    decreases heights.len(),
{
    if heights.len() > 0 {
        let h = heights[0];
        if y + h <= area.y + area.height && x + width <= area.x + area.width {
            let rest = heights.skip(1);
            lemma_stacked_boxes_inside(rest, x, y + h, width, area);
            let first = Rect { x: x as u16, y: y as u16, width: width as u16, height: h };
            let tail = stacked_boxes(rest, x, y + h, width, area);
            let b = stacked_boxes(heights, x, y, width, area);
            assert(b == seq![first] + tail);
            assert forall|i: int| 0 <= i < b.len() implies {
                &&& (#[trigger] b[i]).y + b[i].height <= area.y + area.height
                &&& b[i].x + b[i].width <= area.x + area.width
                &&& b[i].x == x
                &&& b[i].height == heights[i]
            } by {
                if i > 0 {
                    assert(b[i] == tail[i - 1]);
                    assert(rest[i - 1] == heights[i]);
                }
            }
            assert forall|i: int| 0 < i < b.len() implies #[trigger] b[i].y == b[i - 1].y + b[i
                - 1].height by {
                assert(b[i] == tail[i - 1]);
                if i > 1 {
                    assert(b[i - 1] == tail[i - 2]);
                }
            }
        }
    }
}

pub open spec fn sat_sub(a: u16, b: u16) -> int {
    if a >= b {
        a - b
    } else {
        0
    }
}

} // verus!
