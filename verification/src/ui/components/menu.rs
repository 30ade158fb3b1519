//! Scrolling of the menu list.

use vstd::prelude::*;

verus! {

/// The first item to show of `total_items` when `max_visible` fit: none scrolled while all
/// fit; otherwise the selection is kept in the middle, clamped at both ends of the list.
pub open spec fn scroll_offset_spec(total_items: int, max_visible: int, selected: int) -> int {
    if total_items <= max_visible || max_visible == 0 {
        0
    } else {
        let halfway = max_visible / 2;
        if selected < halfway {
            0
        } else if selected >= total_items - halfway {
            total_items - max_visible
        } else {
            selected - halfway
        }
    }
}

pub struct MenuComponent;

impl MenuComponent {
    /// Calculates the scroll offset for the menu items, `selected_index` being the index of
    /// the current selection.
    pub fn calculate_scroll_offset(
        total_items: usize,
        max_visible: usize,
        selected_index: usize,
    ) -> (r: usize)
        ensures
            r == scroll_offset_spec(total_items as int, max_visible as int, selected_index as int),
    {
        if total_items <= max_visible || max_visible == 0 {
            0
        } else {
            let halfway = max_visible / 2;
            if selected_index < halfway {
                0
            } else if selected_index >= total_items.saturating_sub(halfway) {
                total_items.saturating_sub(max_visible)
            } else {
                selected_index.saturating_sub(halfway)
            }
        }
    }
}

/// Law: the offset keeps the whole visible window inside the list.
pub proof fn lemma_scroll_offset_in_range(total_items: int, max_visible: int, selected: int)
    requires
        0 <= max_visible,
        0 <= selected,
    ensures
        0 <= scroll_offset_spec(total_items, max_visible, selected),
        total_items > max_visible ==> scroll_offset_spec(total_items, max_visible, selected)
            + max_visible <= total_items,
        total_items > max_visible > 0 && selected < total_items ==> scroll_offset_spec(
            total_items,
            max_visible,
            selected,
        ) <= selected < scroll_offset_spec(total_items, max_visible, selected) + max_visible,
{
}

} // verus!
