//! The leaderboard overlay: its placement, and which columns its table shows.

use vstd::prelude::*;
use crate::geometry::{Constraint, Rect};
use crate::utils::{decimal, push_decimal};
use crate::variants::str_equals;

verus! {

pub struct LeaderboardOverlay;

/// The name shown for the column whose sort key is `key` ("Unknown" for other keys).
pub open spec fn sort_name_spec(key: Seq<char>) -> Seq<char> {
    if key == "mode_kind"@ {
        "Mode"@
    } else if key == "language"@ {
        "Language"@
    } else if key == "wpm"@ {
        "WPM"@
    } else if key == "raw_wpm"@ {
        "Raw"@
    } else if key == "accuracy"@ {
        "Accuracy"@
    } else if key == "consistency"@ {
        "Consistency"@
    } else if key == "error_count"@ {
        "Errors"@
    } else if key == "created_at"@ {
        "Date"@
    } else {
        "Unknown"@
    }
}

/// The status line under the table: "No results" without results, else the selected row
/// (counted from one, zero without a selection) of all, and the sorting.
pub open spec fn status_text_spec(
    sort_key: Seq<char>,
    order: SortOrder,
    selected: Option<usize>,
    total_count: nat,
) -> Seq<char> {
    if total_count == 0 {
        "No results"@
    } else {
        let current: nat = match selected {
            Some(i) => (i + 1) as nat,
            None => 0,
        };
        decimal(current) + seq!['/'] + decimal(total_count) + " results  |  Sort: "@
            + sort_name_spec(sort_key) + seq![' '] + sort_indicator_spec(order) + "  "@
    }
}

/// Whether `label` is the header label of the column sorted by `key`: the name the status
/// line gives the key (`sort_name_spec`), then the column's one-char shortcut in brackets.
pub open spec fn labelled_by_name(label: Seq<char>, key: Seq<char>) -> bool {
    label.len() >= 4 && label == sort_name_spec(key) + " ["@ + seq![label[label.len() - 2]] + "]"@
}

/// Whether every column in `cols` is labelled by its key's name (see `labelled_by_name`).
pub open spec fn all_labelled_by_name(cols: Seq<(Seq<char>, Seq<char>)>) -> bool {
    forall|j: int| 0 <= j < cols.len() ==> labelled_by_name((#[trigger] cols[j]).0, cols[j].1)
}

proof fn lemma_push_labelled(cols: Seq<(Seq<char>, Seq<char>)>, col: (Seq<char>, Seq<char>))
    requires
        all_labelled_by_name(cols),
        labelled_by_name(col.0, col.1),
    ensures
        all_labelled_by_name(cols.push(col)),
{
    assert forall|j: int| 0 <= j < cols.push(col).len() implies labelled_by_name(
        (#[trigger] cols.push(col)[j]).0,
        cols.push(col)[j].1,
    ) by {
        if j < cols.len() {
            assert(cols.push(col)[j] == cols[j]);
        }
    }
}

/// Law: the status line names the sort key as the table's header does. Every column the
/// table shows is labelled by the name `sort_name_spec` gives its key, followed by the
/// column's shortcut in brackets.
pub proof fn lemma_sort_name_is_header_label(show: ShowRules, i: int)
    requires
        0 <= i < header_columns_spec(show).len(),
    ensures
        labelled_by_name(header_columns_spec(show)[i].0, header_columns_spec(show)[i].1),
{
    reveal_strlit("mode_kind");
    reveal_strlit("language");
    reveal_strlit("wpm");
    reveal_strlit("raw_wpm");
    reveal_strlit("accuracy");
    reveal_strlit("consistency");
    reveal_strlit("error_count");
    reveal_strlit("created_at");
    reveal_strlit("Mode");
    reveal_strlit("Language");
    reveal_strlit("WPM");
    reveal_strlit("Raw");
    reveal_strlit("Accuracy");
    reveal_strlit("Consistency");
    reveal_strlit("Errors");
    reveal_strlit("Date");
    reveal_strlit("Unknown");
    reveal_strlit(" [");
    reveal_strlit("]");
    assert("mode_kind"@.len() == 9 && "mode_kind"@[0] == 'm' && "mode_kind"@[1] == 'o');
    assert("language"@.len() == 8 && "language"@[0] == 'l' && "language"@[1] == 'a');
    assert("wpm"@.len() == 3 && "wpm"@[0] == 'w' && "wpm"@[1] == 'p');
    assert("raw_wpm"@.len() == 7 && "raw_wpm"@[0] == 'r' && "raw_wpm"@[1] == 'a');
    assert("accuracy"@.len() == 8 && "accuracy"@[0] == 'a' && "accuracy"@[1] == 'c');
    assert("consistency"@.len() == 11 && "consistency"@[0] == 'c' && "consistency"@[1] == 'o');
    assert("error_count"@.len() == 11 && "error_count"@[0] == 'e' && "error_count"@[1] == 'r');
    assert("created_at"@.len() == 10 && "created_at"@[0] == 'c' && "created_at"@[1] == 'r');
    reveal_strlit("WPM [w]");
    reveal_strlit("Accuracy [a]");
    reveal_strlit("Raw [r]");
    reveal_strlit("Consistency [c]");
    reveal_strlit("Errors [e]");
    reveal_strlit("Mode [m]");
    reveal_strlit("Language [l]");
    reveal_strlit("Date [d]");
    assert(sort_name_spec("wpm"@) == "WPM"@);
    assert("WPM [w]"@ =~= "WPM"@ + " ["@ + seq!['w'] + "]"@);
    assert(labelled_by_name("WPM [w]"@, "wpm"@));
    assert(sort_name_spec("accuracy"@) == "Accuracy"@);
    assert("Accuracy [a]"@ =~= "Accuracy"@ + " ["@ + seq!['a'] + "]"@);
    assert(labelled_by_name("Accuracy [a]"@, "accuracy"@));
    assert(sort_name_spec("raw_wpm"@) == "Raw"@);
    assert("Raw [r]"@ =~= "Raw"@ + " ["@ + seq!['r'] + "]"@);
    assert(labelled_by_name("Raw [r]"@, "raw_wpm"@));
    assert(sort_name_spec("consistency"@) == "Consistency"@);
    assert("Consistency [c]"@ =~= "Consistency"@ + " ["@ + seq!['c'] + "]"@);
    assert(labelled_by_name("Consistency [c]"@, "consistency"@));
    assert(sort_name_spec("error_count"@) == "Errors"@);
    assert("Errors [e]"@ =~= "Errors"@ + " ["@ + seq!['e'] + "]"@);
    assert(labelled_by_name("Errors [e]"@, "error_count"@));
    assert(sort_name_spec("mode_kind"@) == "Mode"@);
    assert("Mode [m]"@ =~= "Mode"@ + " ["@ + seq!['m'] + "]"@);
    assert(labelled_by_name("Mode [m]"@, "mode_kind"@));
    assert(sort_name_spec("language"@) == "Language"@);
    assert("Language [l]"@ =~= "Language"@ + " ["@ + seq!['l'] + "]"@);
    assert(labelled_by_name("Language [l]"@, "language"@));
    assert(sort_name_spec("created_at"@) == "Date"@);
    assert("Date [d]"@ =~= "Date"@ + " ["@ + seq!['d'] + "]"@);
    assert(labelled_by_name("Date [d]"@, "created_at"@));
    let s0 = seq![("WPM [w]"@, "wpm"@)];
    assert(all_labelled_by_name(s0));
    let s1 = if show.accuracy { s0.push(("Accuracy [a]"@, "accuracy"@)) } else { s0 };
    if show.accuracy { lemma_push_labelled(s0, ("Accuracy [a]"@, "accuracy"@)); }
    let s2 = if show.raw { s1.push(("Raw [r]"@, "raw_wpm"@)) } else { s1 };
    if show.raw { lemma_push_labelled(s1, ("Raw [r]"@, "raw_wpm"@)); }
    let s3 = if show.consistency { s2.push(("Consistency [c]"@, "consistency"@)) } else { s2 };
    if show.consistency { lemma_push_labelled(s2, ("Consistency [c]"@, "consistency"@)); }
    let s4 = if show.errors { s3.push(("Errors [e]"@, "error_count"@)) } else { s3 };
    if show.errors { lemma_push_labelled(s3, ("Errors [e]"@, "error_count"@)); }
    let s5 = if show.mode { s4.push(("Mode [m]"@, "mode_kind"@)) } else { s4 };
    if show.mode { lemma_push_labelled(s4, ("Mode [m]"@, "mode_kind"@)); }
    let s6 = if show.language { s5.push(("Language [l]"@, "language"@)) } else { s5 };
    if show.language { lemma_push_labelled(s5, ("Language [l]"@, "language"@)); }
    lemma_push_labelled(s6, ("Date [d]"@, "created_at"@));
    assert(header_columns_spec(show) == s6.push(("Date [d]"@, "created_at"@)));
    assert(header_columns_spec(show)[i] == s6.push(("Date [d]"@, "created_at"@))[i]);
}

/// Law: different sort keys are named differently; only keys of no column are named
/// "Unknown".
pub proof fn lemma_sort_names_distinct(k1: Seq<char>, k2: Seq<char>)
    requires
        k1 != k2,
        sort_name_spec(k1) != "Unknown"@,
    ensures
        sort_name_spec(k1) != sort_name_spec(k2),
{
    reveal_strlit("mode_kind");
    reveal_strlit("language");
    reveal_strlit("wpm");
    reveal_strlit("raw_wpm");
    reveal_strlit("accuracy");
    reveal_strlit("consistency");
    reveal_strlit("error_count");
    reveal_strlit("created_at");
    reveal_strlit("Mode");
    reveal_strlit("Language");
    reveal_strlit("WPM");
    reveal_strlit("Raw");
    reveal_strlit("Accuracy");
    reveal_strlit("Consistency");
    reveal_strlit("Errors");
    reveal_strlit("Date");
    reveal_strlit("Unknown");
    assert("Mode"@.len() == 4 && "Mode"@[0] == 'M' && "Mode"@[1] == 'o');
    assert("Language"@.len() == 8 && "Language"@[0] == 'L' && "Language"@[1] == 'a');
    assert("WPM"@.len() == 3 && "WPM"@[0] == 'W' && "WPM"@[1] == 'P');
    assert("Raw"@.len() == 3 && "Raw"@[0] == 'R' && "Raw"@[1] == 'a');
    assert("Accuracy"@.len() == 8 && "Accuracy"@[0] == 'A' && "Accuracy"@[1] == 'c');
    assert("Consistency"@.len() == 11 && "Consistency"@[0] == 'C' && "Consistency"@[1] == 'o');
    assert("Errors"@.len() == 6 && "Errors"@[0] == 'E' && "Errors"@[1] == 'r');
    assert("Date"@.len() == 4 && "Date"@[0] == 'D' && "Date"@[1] == 'a');
    assert("Unknown"@.len() == 7 && "Unknown"@[0] == 'U' && "Unknown"@[1] == 'n');
}

/// The order the leaderboard is sorted in.
#[derive(Debug, Clone, Copy, PartialEq, Eq, Structural)]
pub enum SortOrder {
    Ascending,
    Descending,
}

/// Which of the optional columns the table shows (speed and date always show).
#[derive(Debug, Clone, Copy, PartialEq, Eq, Structural)]
pub struct ShowRules {
    pub language: bool,
    pub mode: bool,
    pub errors: bool,
    pub consistency: bool,
    pub raw: bool,
    pub accuracy: bool,
}

/// The widths of the shown columns, the widest layout that the rules allow.
pub open spec fn column_widths_spec(show: ShowRules) -> Seq<Constraint> {
    if show.language {
        seq![
            Constraint::Length(10),
            Constraint::Length(14),
            Constraint::Length(10),
            Constraint::Length(16),
            Constraint::Length(12),
            Constraint::Min(12),
            Constraint::Min(16),
            Constraint::Length(18),
        ]
    } else if show.mode {
        seq![
            Constraint::Length(8),
            Constraint::Length(12),
            Constraint::Length(8),
            Constraint::Length(16),
            Constraint::Length(12),
            Constraint::Min(16),
            Constraint::Length(18),
        ]
    } else if show.errors {
        seq![
            Constraint::Length(10),
            Constraint::Length(16),
            Constraint::Length(10),
            Constraint::Length(18),
            Constraint::Min(12),
            Constraint::Length(18),
        ]
    } else if show.consistency {
        seq![
            Constraint::Length(10),
            Constraint::Length(16),
            Constraint::Length(10),
            Constraint::Min(14),
            Constraint::Length(18),
        ]
    } else if show.raw {
        seq![Constraint::Length(12), Constraint::Length(18), Constraint::Min(12), Constraint::Length(18)]
    } else if show.accuracy {
        seq![Constraint::Length(12), Constraint::Min(14), Constraint::Length(18)]
    } else {
        seq![Constraint::Percentage(30), Constraint::Percentage(70)]
    }
}

/// The shown columns in order, as (header label, sort key): speed, then each optional
/// column the rules show, then the date.
pub open spec fn header_columns_spec(show: ShowRules) -> Seq<(Seq<char>, Seq<char>)> {
    let s0 = seq![("WPM [w]"@, "wpm"@)];
    let s1 = if show.accuracy { s0.push(("Accuracy [a]"@, "accuracy"@)) } else { s0 };
    let s2 = if show.raw { s1.push(("Raw [r]"@, "raw_wpm"@)) } else { s1 };
    let s3 = if show.consistency { s2.push(("Consistency [c]"@, "consistency"@)) } else { s2 };
    let s4 = if show.errors { s3.push(("Errors [e]"@, "error_count"@)) } else { s3 };
    let s5 = if show.mode { s4.push(("Mode [m]"@, "mode_kind"@)) } else { s4 };
    let s6 = if show.language { s5.push(("Language [l]"@, "language"@)) } else { s5 };
    s6.push(("Date [d]"@, "created_at"@))
}

/// The arrow shown beside the column the table is sorted by.
pub open spec fn sort_indicator_spec(order: SortOrder) -> Seq<char> {
    match order {
        SortOrder::Descending => "↓"@,
        SortOrder::Ascending => "↑"@,
    }
}

/// The view of (label, key) pairs of string literals.
pub open spec fn pairs_view(pairs: Seq<(&'static str, &'static str)>) -> Seq<(Seq<char>, Seq<char>)> {
    pairs.map_values(|p: (&'static str, &'static str)| (p.0@, p.1@))
}

impl LeaderboardOverlay {
    /// The overlay: 6 cells smaller than the area, at most 140 by 35, centered in the
    /// area's size (not offset by its corner).
    pub fn calculate_leaderboard_overlay_area(area: Rect) -> (r: Rect)
        ensures
            ({
                let w6 = if area.width >= 6 { area.width - 6 } else { 0 };
                let h6 = if area.height >= 6 { area.height - 6 } else { 0 };
                let width = if w6 < 140 { w6 } else { 140 };
                let height = if h6 < 35 { h6 } else { 35 };
                r == Rect {
                    x: ((area.width - width) / 2) as u16,
                    y: ((area.height - height) / 2) as u16,
                    width: width as u16,
                    height: height as u16,
                }
            }),
    {
        let w6 = area.width.saturating_sub(6);
        let h6 = area.height.saturating_sub(6);
        let width = if w6 < 140 {
            w6
        } else {
            140
        };
        let height = if h6 < 35 {
            h6
        } else {
            35
        };
        let x = area.width.saturating_sub(width) / 2;
        let y = area.height.saturating_sub(height) / 2;
        Rect { x, y, width, height }
    }

    /// The optional columns that fit in a table `width` columns wide; as the table
    /// narrows they go in the order language, mode, errors, consistency, raw, accuracy.
    pub fn show_rules(width: u16) -> (r: ShowRules)
        ensures
            r == (ShowRules {
                language: width >= 115,
                mode: width >= 98,
                errors: width >= 87,
                consistency: width >= 75,
                raw: width >= 57,
                accuracy: width >= 42,
            }),
    {
        ShowRules {
            language: width >= 115,
            mode: width >= 98,
            errors: width >= 87,
            consistency: width >= 75,
            raw: width >= 57,
            accuracy: width >= 42,
        }
    }

    /// The widths of the table's columns for the shown columns.
    pub fn column_widths(show: ShowRules) -> (r: Vec<Constraint>)
        ensures
            r@ == column_widths_spec(show),
    {
        let r = if show.language {
            vec![
                Constraint::Length(10),
                Constraint::Length(14),
                Constraint::Length(10),
                Constraint::Length(16),
                Constraint::Length(12),
                Constraint::Min(12),
                Constraint::Min(16),
                Constraint::Length(18),
            ]
        } else if show.mode {
            vec![
                Constraint::Length(8),
                Constraint::Length(12),
                Constraint::Length(8),
                Constraint::Length(16),
                Constraint::Length(12),
                Constraint::Min(16),
                Constraint::Length(18),
            ]
        } else if show.errors {
            vec![
                Constraint::Length(10),
                Constraint::Length(16),
                Constraint::Length(10),
                Constraint::Length(18),
                Constraint::Min(12),
                Constraint::Length(18),
            ]
        } else if show.consistency {
            vec![
                Constraint::Length(10),
                Constraint::Length(16),
                Constraint::Length(10),
                Constraint::Min(14),
                Constraint::Length(18),
            ]
        } else if show.raw {
            vec![
                Constraint::Length(12),
                Constraint::Length(18),
                Constraint::Min(12),
                Constraint::Length(18),
            ]
        } else if show.accuracy {
            vec![Constraint::Length(12), Constraint::Min(14), Constraint::Length(18)]
        } else {
            vec![Constraint::Percentage(30), Constraint::Percentage(70)]
        };
        assert(r@ =~= column_widths_spec(show));
        r
    }

    /// The arrow shown beside the column the table is sorted by.
    pub fn sort_indicator(order: SortOrder) -> (r: &'static str)
        ensures
            r@ == sort_indicator_spec(order),
    {
        match order {
            SortOrder::Descending => "↓",
            SortOrder::Ascending => "↑",
        }
    }

    /// The shown columns in order, as (header label, sort key).
    pub fn header_columns(show: ShowRules) -> (r: Vec<(&'static str, &'static str)>)
        ensures
            pairs_view(r@) == header_columns_spec(show),
    {
        let mut columns: Vec<(&'static str, &'static str)> = vec![("WPM [w]", "wpm")];
        let ghost s0 = seq![("WPM [w]"@, "wpm"@)];
        assert(pairs_view(columns@) =~= s0);
        if show.accuracy {
            columns.push(("Accuracy [a]", "accuracy"));
        }
        let ghost s1 = if show.accuracy { s0.push(("Accuracy [a]"@, "accuracy"@)) } else { s0 };
        assert(pairs_view(columns@) =~= s1);
        if show.raw {
            columns.push(("Raw [r]", "raw_wpm"));
        }
        let ghost s2 = if show.raw { s1.push(("Raw [r]"@, "raw_wpm"@)) } else { s1 };
        assert(pairs_view(columns@) =~= s2);
        if show.consistency {
            columns.push(("Consistency [c]", "consistency"));
        }
        let ghost s3 = if show.consistency { s2.push(("Consistency [c]"@, "consistency"@)) } else { s2 };
        assert(pairs_view(columns@) =~= s3);
        if show.errors {
            columns.push(("Errors [e]", "error_count"));
        }
        let ghost s4 = if show.errors { s3.push(("Errors [e]"@, "error_count"@)) } else { s3 };
        assert(pairs_view(columns@) =~= s4);
        if show.mode {
            columns.push(("Mode [m]", "mode_kind"));
        }
        let ghost s5 = if show.mode { s4.push(("Mode [m]"@, "mode_kind"@)) } else { s4 };
        assert(pairs_view(columns@) =~= s5);
        if show.language {
            columns.push(("Language [l]", "language"));
        }
        let ghost s6 = if show.language { s5.push(("Language [l]"@, "language"@)) } else { s5 };
        assert(pairs_view(columns@) =~= s6);
        columns.push(("Date [d]", "created_at"));
        assert(pairs_view(columns@) =~= s6.push(("Date [d]"@, "created_at"@)));
        columns
    }

    /// The header cells of the table: each shown column's label and whether the table is
    /// sorted by it (the column whose key is `sort_key`), whose label then carries the
    /// sort order's arrow after a space.
    pub fn header_labels(show: ShowRules, sort_key: &str, order: SortOrder) -> (r: Vec<(String, bool)>)
        ensures
            r@.len() == header_columns_spec(show).len(),
            forall|i: int|
                0 <= i < r@.len() ==> {
                    let (label, key) = header_columns_spec(show)[i];
                    &&& (#[trigger] r@[i]).1 == (key == sort_key@)
                    &&& r@[i].0@ == (if key == sort_key@ {
                        label + " "@ + sort_indicator_spec(order)
                    } else {
                        label
                    })
                },
    {
        let indicator = Self::sort_indicator(order);
        let columns = Self::header_columns(show);
        let ghost cols = header_columns_spec(show);
        let mut cells: Vec<(String, bool)> = Vec::new();
        let mut i: usize = 0;
        while i < columns.len()
            invariant
                pairs_view(columns@) == cols,
                cols == header_columns_spec(show),
                indicator@ == sort_indicator_spec(order),
                i <= columns@.len(),
                cells@.len() == i,
                forall|j: int|
                    0 <= j < i ==> {
                        let (label, key) = cols[j];
                        &&& (#[trigger] cells@[j]).1 == (key == sort_key@)
                        &&& cells@[j].0@ == (if key == sort_key@ {
                            label + " "@ + sort_indicator_spec(order)
                        } else {
                            label
                        })
                    },
            decreases columns.len() - i,
        {
            let (label, key) = columns[i];
            assert(cols[i as int] == (label@, key@));
            let is_active = crate::variants::str_equals(key, sort_key);
            let text = if is_active {
                let mut t = label.to_owned();
                t.append(" ");
                t.append(indicator);
                t
            } else {
                label.to_owned()
            };
            cells.push((text, is_active));
            i += 1;
        }
        cells
    }

    /// The row of a table without results that says so: the middle row of `area`.
    pub fn empty_message_area(area: Rect) -> (r: Rect)
        requires
            area.y + area.height / 2 <= u16::MAX,
        ensures
            r == (Rect { x: area.x, y: (area.y + area.height / 2) as u16, width: area.width, height: 1 }),
    {
        let vertical_padding = area.height / 2;
        Rect { x: area.x, y: area.y + vertical_padding, width: area.width, height: 1 }
    }

    /// The name shown for the column whose sort key is `key`.
    pub fn sort_name(key: &str) -> (r: &'static str)
        ensures
            r@ == sort_name_spec(key@),
    {
        if str_equals(key, "mode_kind") {
            "Mode"
        } else if str_equals(key, "language") {
            "Language"
        } else if str_equals(key, "wpm") {
            "WPM"
        } else if str_equals(key, "raw_wpm") {
            "Raw"
        } else if str_equals(key, "accuracy") {
            "Accuracy"
        } else if str_equals(key, "consistency") {
            "Consistency"
        } else if str_equals(key, "error_count") {
            "Errors"
        } else if str_equals(key, "created_at") {
            "Date"
        } else {
            "Unknown"
        }
    }

    /// The status line under the table (see `status_text_spec`), the table sorted by the
    /// column whose key is `sort_key`, with row `selected` selected of `total_count`.
    pub fn status_text(sort_key: &str, order: SortOrder, selected: Option<usize>, total_count: usize) -> (r: String)
        requires
            selected matches Some(i) ==> i < usize::MAX,
        ensures
            r@ == status_text_spec(sort_key@, order, selected, total_count as nat),
    {
        if total_count == 0 {
            return "No results".to_owned();
        }
        let current: usize = match selected {
            Some(i) => i + 1,
            None => 0,
        };
        proof {
            reveal_strlit("/");
            reveal_strlit(" ");
        }
        let mut s = String::new();
        push_decimal(&mut s, current as u128);
        s.append("/");
        push_decimal(&mut s, total_count as u128);
        s.append(" results  |  Sort: ");
        s.append(Self::sort_name(sort_key));
        s.append(" ");
        s.append(Self::sort_indicator(order));
        s.append("  ");
        assert(s@ =~= status_text_spec(sort_key@, order, selected, total_count as nat));
        s
    }

    /// The date format of the rows: with the time from 30 columns on.
    pub fn date_format(width: u16) -> (r: &'static str)
        ensures
            r@ == (if width >= 30 { "%d %b %Y %H:%M"@ } else { "%d %b %Y"@ }),
    {
        if width >= 30 {
            "%d %b %Y %H:%M"
        } else {
            "%d %b %Y"
        }
    }
}

} // verus!
