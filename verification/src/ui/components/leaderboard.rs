//! The leaderboard overlay of the typing screen: its table header, the cells it derives from
//! a result, its status line and its close button.

use vstd::prelude::*;
use crate::geometry::Rect;
use crate::tui::components::leaderboard::SortOrder;
use crate::utils::{decimal, push_decimal};
use crate::variants::str_equals;

verus! {

/// The overlay.
pub struct LeaderboardComponent;

/// Pieces of text, each marked when it shows in the accent colour (the letter of the
/// column's shortcut).
pub open spec fn labels_view(ps: Seq<(String, bool)>) -> Seq<(Seq<char>, bool)> {
    ps.map_values(|p: (String, bool)| (p.0@, p.1))
}

/// The header label of the column named `name`: the shortcut letter accented, the rest
/// plain; a name without a shortcut plain as a whole.
pub open spec fn header_labels_spec(name: Seq<char>) -> Seq<(Seq<char>, bool)> {
    if name == "WPM"@ {
        seq![("W"@, true), ("PM"@, false)]
    } else if name == "Raw"@ {
        seq![("R"@, true), ("aw"@, false)]
    } else if name == "Accuracy"@ {
        seq![("A"@, true), ("ccuracy"@, false)]
    } else if name == "Chars"@ {
        seq![("C"@, false), ("h"@, true), ("ars"@, false)]
    } else if name == "Language"@ {
        seq![("L"@, true), ("anguage"@, false)]
    } else if name == "Mode"@ {
        seq![("M"@, true), ("ode"@, false)]
    } else if name == "Date"@ {
        seq![("D"@, true), ("ate"@, false)]
    } else {
        seq![(name, false)]
    }
}

/// The arrow of a sort order.
pub open spec fn arrow_spec(order: SortOrder) -> Seq<char> {
    match order {
        SortOrder::Ascending => "↑"@,
        SortOrder::Descending => "↓"@,
    }
}

/// A header cell: the column's label, followed on the sorted column by a space and the
/// order's arrow (plain).
pub open spec fn header_cell_spec(name: Seq<char>, is_sorted: bool, order: SortOrder) -> Seq<
    (Seq<char>, bool),
> {
    if is_sorted {
        header_labels_spec(name).push((seq![' '] + arrow_spec(order), false))
    } else {
        header_labels_spec(name)
    }
}

/// The chars cell of a result: correct keystrokes, wrong ones (none when the count of all
/// is smaller), and two zeros, apart by slashes.
pub open spec fn chars_text_spec(correct: nat, total: nat) -> Seq<char> {
    decimal(correct) + seq!['/'] + decimal(if total >= correct { (total - correct) as nat } else { 0 })
        + "/0/0"@
}

/// What the leaderboard's status line knows.
pub struct LeaderboardStatus {
    pub has_results: bool,
    /// The name of the column sorted by.
    pub sort_column: String,
    pub order: SortOrder,
    /// The results loaded.
    pub shown: usize,
    /// All results.
    pub count: usize,
    pub is_loading: bool,
    /// The error of the last load, if it failed.
    pub error: Option<String>,
}

/// The status line: with results, what they are sorted by and how many of all show (and
/// that more are loading); else the error of the last load, or that it is loading.
pub open spec fn footer_text_spec(s: LeaderboardStatus) -> Seq<char> {
    if s.has_results {
        "Sorted by "@ + s.sort_column@ + seq![' '] + arrow_spec(s.order) + " • Showing "@ + decimal(
            s.shown as nat,
        ) + " of "@ + decimal(s.count as nat) + " results"@ + (if s.is_loading {
            "  Loading more..."@
        } else {
            Seq::empty()
        })
    } else {
        match s.error {
            Some(e) => "Error: "@ + e@,
            None => "Loading..."@,
        }
    }
}

fn piece(text: &str, accent: bool) -> (r: (String, bool))
    ensures
        r.0@ == text@,
        r.1 == accent,
{
    (text.to_owned(), accent)
}

impl LeaderboardComponent {
    /// The header label of the column named `name` (see `header_labels_spec`).
    pub fn create_header_labels(name: &str) -> (r: Vec<(String, bool)>)
        ensures
            labels_view(r@) == header_labels_spec(name@),
    {
        let mut v: Vec<(String, bool)> = Vec::new();
        if str_equals(name, "WPM") {
            v.push(piece("W", true));
            v.push(piece("PM", false));
        } else if str_equals(name, "Raw") {
            v.push(piece("R", true));
            v.push(piece("aw", false));
        } else if str_equals(name, "Accuracy") {
            v.push(piece("A", true));
            v.push(piece("ccuracy", false));
        } else if str_equals(name, "Chars") {
            v.push(piece("C", false));
            v.push(piece("h", true));
            v.push(piece("ars", false));
        } else if str_equals(name, "Language") {
            v.push(piece("L", true));
            v.push(piece("anguage", false));
        } else if str_equals(name, "Mode") {
            v.push(piece("M", true));
            v.push(piece("ode", false));
        } else if str_equals(name, "Date") {
            v.push(piece("D", true));
            v.push(piece("ate", false));
        } else {
            v.push(piece(name, false));
        }
        assert(labels_view(v@) =~= header_labels_spec(name@));
        v
    }

    /// The header cells of the table for the columns named `names`, the one at
    /// `sorted_index` sorted in `order` (see `header_cell_spec`).
    pub fn header_cells(names: &[&str], sorted_index: usize, order: SortOrder) -> (r: Vec<
        Vec<(String, bool)>,
    >)
        ensures
            r@.len() == names@.len(),
            forall|i: int|
                0 <= i < names@.len() ==> labels_view((#[trigger] r@[i])@) == header_cell_spec(
                    names@[i]@,
                    i == sorted_index,
                    order,
                ),
    {
        let arrow = match order {
            SortOrder::Ascending => " ↑",
            SortOrder::Descending => " ↓",
        };
        proof {
            reveal_strlit(" ↑");
            reveal_strlit(" ↓");
            reveal_strlit("↑");
            reveal_strlit("↓");
        }
        let mut cells: Vec<Vec<(String, bool)>> = Vec::new();
        let mut i: usize = 0;
        while i < names.len()
            invariant
                i <= names@.len(),
                cells@.len() == i,
                arrow@ == seq![' '] + arrow_spec(order),
                forall|k: int|
                    0 <= k < i ==> labels_view((#[trigger] cells@[k])@) == header_cell_spec(
                        names@[k]@,
                        k == sorted_index,
                        order,
                    ),
            decreases names.len() - i,
        {
            let mut cell = Self::create_header_labels(names[i]);
            if i == sorted_index {
                let ghost before = cell@;
                cell.push((arrow.to_owned(), false));
                assert(labels_view(cell@) =~= labels_view(before).push((arrow@, false)));
            }
            let ghost prev = cells@;
            cells.push(cell);
            assert forall|k: int| 0 <= k < i + 1 implies labels_view((#[trigger] cells@[k])@)
                == header_cell_spec(names@[k]@, k == sorted_index, order) by {
                if k < i {
                    assert(cells@[k] == prev[k]);
                }
            }
            i += 1;
        }
        cells
    }

    /// The chars cell of a result with `correct` of `total` keystrokes right.
    pub fn chars_text(correct: u64, total: u64) -> (r: String)
        ensures
            r@ == chars_text_spec(correct as nat, total as nat),
    {
        proof {
            reveal_strlit("/");
        }
        let mut s = String::new();
        push_decimal(&mut s, correct as u128);
        s.append("/");
        push_decimal(&mut s, total.saturating_sub(correct) as u128);
        s.append("/0/0");
        assert(s@ =~= chars_text_spec(correct as nat, total as nat));
        s
    }

    /// The status line (see `footer_text_spec`).
    pub fn footer_text(status: &LeaderboardStatus) -> (r: String)
        ensures
            r@ == footer_text_spec(*status),
    {
        if status.has_results {
            proof {
                reveal_strlit(" ");
                reveal_strlit("↑");
                reveal_strlit("↓");
            }
            let arrow = match status.order {
                SortOrder::Ascending => "↑",
                SortOrder::Descending => "↓",
            };
            let mut s = "Sorted by ".to_owned();
            s.append(status.sort_column.as_str());
            s.append(" ");
            s.append(arrow);
            s.append(" • Showing ");
            push_decimal(&mut s, status.shown as u128);
            s.append(" of ");
            push_decimal(&mut s, status.count as u128);
            s.append(" results");
            if status.is_loading {
                s.append("  Loading more...");
            }
            assert(s@ =~= footer_text_spec(*status));
            s
        } else {
            match &status.error {
                Some(e) => {
                    let mut s = "Error: ".to_owned();
                    s.append(e.as_str());
                    s
                },
                None => "Loading...".to_owned(),
            }
        }
    }

    /// Where the close button goes: the top right corner of `area`, three columns wide
    /// and one row tall.
    pub fn close_area(area: Rect) -> (r: Rect)
        requires
            area.x + area.width >= 3,
            area.x + area.width <= u16::MAX,
        ensures
            r == (Rect { x: (area.x + area.width - 3) as u16, y: area.y, width: 3, height: 1 }),
    {
        Rect { x: area.x + area.width - 3, y: area.y, width: 3, height: 1 }
    }
}

} // verus!
