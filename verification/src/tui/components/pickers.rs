//! Picker overlays: the telescope picker and the command palette, and what they share:
//! their height and the scrolling of their item lists.

pub mod command_palette;
pub mod search_bar;
pub mod telescope;

use vstd::prelude::*;
use crate::geometry::Rect;

verus! {

/// The picker overlay.
pub struct Picker;

impl Picker {
    /// The rows of items the picker lists in `area`: at most 20 rows, 6 fewer than the area
    /// has, less the two border rows.
    pub fn menu_height(area: Rect) -> (r: u16)
        ensures
            ({
                let h6 = if area.height >= 6 { area.height - 6 } else { 0 };
                let max_height = if 20 < h6 { 20 } else { h6 };
                r == (if max_height >= 2 { max_height - 2 } else { 0 })
            }),
    {
        let max_menu_height: u16 = 20;
        let h6 = area.height.saturating_sub(6);
        let max_height = if max_menu_height < h6 {
            max_menu_height
        } else {
            h6
        };
        max_height.saturating_sub(2)
    }
}

/// The first item shown so that item `current_index` is among the `height` items shown:
/// the list scrolls up to the item when it is above, down just far enough when it is below,
/// and stays otherwise.
pub open spec fn ensure_visible_spec(current_index: int, scroll_offset: int, height: int) -> int {
    if current_index < scroll_offset {
        current_index
    } else if current_index >= scroll_offset + height {
        let h1 = if height >= 1 { height - 1 } else { 0 };
        if current_index >= h1 { current_index - h1 } else { 0 }
    } else {
        scroll_offset
    }
}

/// The first item to show so that item `current_index` shows (see `ensure_visible_spec`).
pub fn ensure_visible(current_index: usize, scroll_offset: usize, height: usize) -> (r: usize)
    requires
        current_index >= scroll_offset ==> scroll_offset + height <= usize::MAX,
    ensures
        r == ensure_visible_spec(current_index as int, scroll_offset as int, height as int),
{
    if current_index < scroll_offset {
        current_index
    } else if current_index >= scroll_offset + height {
        current_index.saturating_sub(height.saturating_sub(1))
    } else {
        scroll_offset
    }
}

/// Law: after scrolling, the current item is among the items shown (when any row shows),
/// and the list does not move when it already was.
pub proof fn lemma_current_item_visible(current_index: int, scroll_offset: int, height: int)
    requires
        current_index >= 0,
        scroll_offset >= 0,
        height >= 1,
    ensures
        ({
            let s = ensure_visible_spec(current_index, scroll_offset, height);
            &&& 0 <= s <= current_index < s + height
            &&& (scroll_offset <= current_index < scroll_offset + height) ==> s == scroll_offset
        }),
{
}

/// The index of the current item among the items listed (each known by an id): while a
/// search query filters the list, the first place the current item (`current`) holds in it,
/// or 0 when there is no current item or the list does not hold it; otherwise the menu's
/// own index `current_index`.
pub fn current_item_index(has_search_query: bool, items: &[u64], current: Option<u64>, current_index: usize) -> (r: usize)
    ensures
        !has_search_query ==> r == current_index,
        has_search_query ==> match current {
            Some(c) => if items@.contains(c) {
                &&& r < items@.len()
                &&& items@[r as int] == c
                &&& forall|j: int| 0 <= j < r ==> items@[j] != c
            } else {
                r == 0
            },
            None => r == 0,
        },
{
    if !has_search_query {
        return current_index;
    }
    match current {
        None => 0,
        Some(c) => {
            let mut i: usize = 0;
            while i < items.len()
                invariant
                    has_search_query,
                    current == Some(c),
                    i <= items@.len(),
                    forall|j: int| 0 <= j < i ==> items@[j] != c,
                decreases items.len() - i,
            {
                if items[i] == c {
                    return i;
                }
                i += 1;
            }
            0
        },
    }
}

/// The items shown of `item_count`, from the first shown `scroll_offset`, `height` rows:
/// the range from the offset to `height` items further, both cut to the list's end.
pub fn visible_range(scroll_offset: usize, height: usize, item_count: usize) -> (r: (usize, usize))
    ensures
        r.0 == (if scroll_offset < item_count { scroll_offset } else { item_count }),
        r.1 == (if scroll_offset + height < item_count { scroll_offset + height } else { item_count as int }),
{
    if scroll_offset >= item_count {
        (item_count, item_count)
    } else if height >= item_count - scroll_offset {
        (scroll_offset, item_count)
    } else {
        (scroll_offset, scroll_offset + height)
    }
}

/// The line the picker shows when the list holds no items.
pub fn no_items_message() -> (r: &'static str)
    ensures
        r@ == "No items found"@,
{
    "No items found"
}

} // verus!
