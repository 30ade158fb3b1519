//! Height of notification boxes on the typing screen.

use vstd::prelude::*;
use crate::geometry::Rect;
use crate::notifications::{Notification, NotificationPosition};
use crate::tui::components::notifications::{box_width, stack_boxes, stack_fits, stack_spec, sum_heights};
use vstd::utf8::encode_utf8;

verus! {

/// The height of a notification box `notification_width` columns wide: two borders, the
/// title, a spacer, and the message's UTF-8 byte count divided (rounding up) by the inner
/// width, kept between 1 and 4 rows (one row for an empty message).
pub open spec fn notification_height_spec(message: Seq<char>, notification_width: u16) -> int {
    let available = notification_width - 4;
    let message_lines = if message.len() == 0 {
        1
    } else {
        let len = ((encode_utf8(message).len() as usize) as u16) as int;
        let rows = if len % available == 0 {
            len / available
        } else {
            len / available + 1
        };
        if rows < 1 {
            1
        } else if rows > 4 {
            4
        } else {
            rows
        }
    };
    2 + 1 + 1 + message_lines
}

/// The heights of the notifications' boxes, `width` wide.
pub open spec fn box_heights(notifications: Seq<Notification>, width: u16) -> Seq<u16> {
    notifications.map_values(|n: Notification| notification_height_spec(n.message@, width) as u16)
}

pub struct NotificationComponent;

impl NotificationComponent {
    /// The height a notification needs in a box `notification_width` columns wide.
    pub fn calculate_notification_height(
        notification: &Notification,
        notification_width: u16,
    ) -> (r: u16)
        requires
            notification.message@.len() > 0 ==> notification_width > 4,
        ensures
            r == notification_height_spec(notification.message@, notification_width),
    {
        let available_width = notification_width.saturating_sub(4);
        let title_height: u16 = 1;
        let message = notification.message.as_str();
        let message_lines: u16 = if message.is_empty() {
            1
        } else {
            let len = message.len() as u16;
            let q = len / available_width;
            let rows = if len % available_width == 0 {
                q
            } else {
                assert(q < u16::MAX) by (nonlinear_arith)
                    requires
                        q == len / available_width,
                        len % available_width != 0,
                        available_width > 0,
                ;
                q + 1
            };
            if rows < 1 {
                1
            } else if rows > 4 {
                4
            } else {
                rows
            }
        };
        2 + title_height + 1 + message_lines
    }

    /// The boxes the notifications are drawn in: each as tall as its content needs at the
    /// common box width, stacked from the given corner of `area` (two columns in from the
    /// left edge or one in from the right) and cut before the first one that would leave it.
    pub fn notification_areas(
        notifications: &[Notification],
        area: Rect,
        position: NotificationPosition,
    ) -> (r: Vec<Rect>)
        requires
            area.fits(),
            area.x + 2 <= u16::MAX,
            forall|i: int|
                0 <= i < notifications@.len() ==> (#[trigger] notifications@[i].message@).len()
                    > 0 ==> box_width(area) > 4,
            sum_heights(box_heights(notifications@, box_width(area))) <= u16::MAX,
            stack_fits(
                box_heights(notifications@, box_width(area)),
                area,
                position,
                box_width(area),
                2,
                1,
            ),
        ensures
            r@ == stack_spec(
                box_heights(notifications@, box_width(area)),
                area,
                position,
                box_width(area),
                2,
                1,
            ),
    {
        let narrower = area.width.saturating_sub(4);
        let notification_width: u16 = if 35 < narrower {
            35
        } else {
            narrower
        };
        let ghost wanted = box_heights(notifications@, box_width(area));
        let mut heights: Vec<u16> = Vec::new();
        let mut i: usize = 0;
        while i < notifications.len()
            invariant
                notification_width == box_width(area),
                wanted == box_heights(notifications@, box_width(area)),
                i <= notifications@.len(),
                forall|j: int|
                    0 <= j < notifications@.len() ==> (#[trigger] notifications@[j].message@).len()
                        > 0 ==> box_width(area) > 4,
                heights@ == wanted.take(i as int),
            decreases notifications.len() - i,
        {
            assert(notifications@[i as int].message@.len() > 0 ==> box_width(area) > 4);
            let h = Self::calculate_notification_height(&notifications[i], notification_width);
            heights.push(h);
            assert(heights@ =~= wanted.take(i + 1));
            i += 1;
        }
        assert(wanted.take(i as int) =~= wanted);
        stack_boxes(heights.as_slice(), area, position, notification_width, 2, 1)
    }
}

} // verus!
