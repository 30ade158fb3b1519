//! What the screen shows: a size warning on a screen too small, else the results, the idle
//! screen or the typing screen.

use vstd::prelude::*;
use crate::geometry::Rect;
use crate::tui::layout::LayoutBuilder;

verus! {

/// The screen to draw.
#[derive(Debug, Clone, Copy, PartialEq, Eq, Structural)]
pub enum Screen {
    /// The terminal is too small: a warning, where there is room for it.
    TooSmall,
    /// The test is over.
    Results,
    /// Nothing typed yet.
    Idle,
    /// A test under way.
    Typing,
}

/// The screen for `area`, given whether the test is complete and whether it is idle.
pub fn screen_for(area: Rect, is_complete: bool, is_idle: bool) -> (r: Screen)
    ensures
        r == (if area.height < 8 || area.width < 35 {
            Screen::TooSmall
        } else if is_complete {
            Screen::Results
        } else if is_idle {
            Screen::Idle
        } else {
            Screen::Typing
        }),
{
    if LayoutBuilder::is_too_smol(area) {
        Screen::TooSmall
    } else if is_complete {
        Screen::Results
    } else if is_idle {
        Screen::Idle
    } else {
        Screen::Typing
    }
}

/// Where the size warning (two rows, `warning_width` columns) goes on a screen too small
/// for the layout: centered in the area's size, cut to its width; nowhere on a screen with
/// fewer than two rows or no column.
pub fn size_warning_rect(area: Rect, warning_width: u16) -> (r: Option<Rect>)
    ensures
        r == (if area.height >= 2 && area.width >= 1 {
            let w = if warning_width < area.width { warning_width } else { area.width };
            Some(Rect::new_spec(((area.width - w) / 2) as u16, ((area.height - 2) / 2) as u16, w, 2))
        } else {
            None
        }),
{
    if area.height >= 2 && area.width >= 1 {
        let warning_height: u16 = 2;
        let clamped_width = if warning_width < area.width {
            warning_width
        } else {
            area.width
        };
        let x = (area.width - clamped_width) / 2;
        let y = (area.height - warning_height) / 2;
        Some(Rect::new(x, y, clamped_width, warning_height))
    } else {
        None
    }
}

/// The overlays drawn over the screen.
#[derive(Debug, Clone, Copy, PartialEq, Eq, Structural)]
pub struct Overlays {
    pub modal: bool,
    pub leaderboard: bool,
    pub picker: bool,
    pub notifications: bool,
}

/// The overlays to draw: a modal dialog alone; else the leaderboard alone; else the picker
/// when the menu is open, and the notifications unless they are hidden.
pub fn overlays_for(has_modal: bool, leaderboard_open: bool, menu_open: bool, hide_notifications: bool) -> (r: Overlays)
    ensures
        r == (if has_modal {
            Overlays { modal: true, leaderboard: false, picker: false, notifications: false }
        } else if leaderboard_open {
            Overlays { modal: false, leaderboard: true, picker: false, notifications: false }
        } else {
            Overlays { modal: false, leaderboard: false, picker: menu_open, notifications: !hide_notifications }
        }),
{
    if has_modal {
        return Overlays { modal: true, leaderboard: false, picker: false, notifications: false };
    }
    if leaderboard_open {
        return Overlays { modal: false, leaderboard: true, picker: false, notifications: false };
    }
    Overlays {
        modal: false,
        leaderboard: false,
        picker: !leaderboard_open && menu_open,
        notifications: !hide_notifications,
    }
}

} // verus!
