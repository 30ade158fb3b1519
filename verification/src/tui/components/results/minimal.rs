//! The plain results screen: a few labelled statistics, centered in the area.

use vstd::prelude::*;
use crate::tui::utils::{
    calculate_horizontal_padding, center_lines_vertically, max_line_width, max_line_width_spec,
    vertically_centered,
};
use crate::utils::{decimal, push_decimal};

verus! {

/// One statistic: its label, a colon and a space, then its value.
pub open spec fn stat_line_spec(label: Seq<char>, value: Seq<char>) -> Seq<char> {
    label + seq![':', ' '] + value
}

/// How the test mode reads: "Time(30s)" for a timed test, "Words(50)" for a word count.
pub open spec fn mode_info_spec(is_time_mode: bool, value: nat) -> Seq<char> {
    if is_time_mode {
        seq!['T', 'i', 'm', 'e', '('] + decimal(value) + seq!['s', ')']
    } else {
        seq!['W', 'o', 'r', 'd', 's', '('] + decimal(value) + seq![')']
    }
}

/// The lines of the screen: WPM, errors, accuracy, language and mode, then an empty line.
pub open spec fn minimal_stats_spec(
    wpm: Seq<char>,
    total_errors: nat,
    accuracy: Seq<char>,
    language: Seq<char>,
    is_time_mode: bool,
    mode_value: nat,
) -> Seq<Seq<char>> {
    seq![
        stat_line_spec(seq!['W', 'P', 'M'], wpm),
        stat_line_spec(seq!['E', 'r', 'r', 'o', 'r', 's'], decimal(total_errors)),
        stat_line_spec(seq!['A', 'c', 'c', 'u', 'r', 'a', 'c', 'y'], accuracy),
        stat_line_spec(seq!['L', 'a', 'n', 'g', 'u', 'a', 'g', 'e'], language),
        stat_line_spec(seq!['M', 'o', 'd', 'e'], mode_info_spec(is_time_mode, mode_value)),
        Seq::<char>::empty(),
    ]
}

/// Left and right padding that center content `content` wide in `total` columns.
pub open spec fn horizontal_padding_spec(content: int, total: int) -> (int, int) {
    if total >= content {
        ((total - content) / 2, total - content - (total - content) / 2)
    } else {
        (0, 0)
    }
}

/// The plain results screen as drawn: its lines and the padding left and right of them.
pub struct MinimalResults {
    pub lines: Vec<String>,
    pub left_pad: u16,
    pub right_pad: u16,
}

/// `label: value`.
fn stat_line(label: &str, value: &str) -> (r: String)
    ensures
        r@ == stat_line_spec(label@, value@),
{
    let mut s = String::new();
    s.append(label);
    s.append(": ");
    proof {
        reveal_strlit(": ");
    }
    s.append(value);
    assert(s@ =~= stat_line_spec(label@, value@));
    s
}

/// The mode as the screen names it: "Time(30s)" or "Words(50)".
pub fn mode_info(is_time_mode: bool, value: u64) -> (r: String)
    ensures
        r@ == mode_info_spec(is_time_mode, value as nat),
{
    let mut s = String::new();
    proof {
        reveal_strlit("Time(");
        reveal_strlit("s)");
        reveal_strlit("Words(");
        reveal_strlit(")");
    }
    if is_time_mode {
        s.append("Time(");
        push_decimal(&mut s, value as u128);
        s.append("s)");
    } else {
        s.append("Words(");
        push_decimal(&mut s, value as u128);
        s.append(")");
    }
    assert(s@ =~= mode_info_spec(is_time_mode, value as nat));
    s
}

/// The lines of the plain results screen, from the statistics as they read (the speed and
/// the accuracy already rounded to text).
pub fn minimal_stats_lines(
    wpm: &str,
    total_errors: u64,
    accuracy: &str,
    language: &str,
    is_time_mode: bool,
    mode_value: u64,
) -> (r: Vec<String>)
    ensures
        r@.map_values(|l: String| l@) == minimal_stats_spec(
            wpm@,
            total_errors as nat,
            accuracy@,
            language@,
            is_time_mode,
            mode_value as nat,
        ),
{
    proof {
        reveal_strlit("WPM");
        reveal_strlit("Errors");
        reveal_strlit("Accuracy");
        reveal_strlit("Language");
        reveal_strlit("Mode");
    }
    let mut errors = String::new();
    push_decimal(&mut errors, total_errors as u128);
    assert(errors@ =~= decimal(total_errors as nat));
    let mode = mode_info(is_time_mode, mode_value);
    let l0 = stat_line("WPM", wpm);
    let l1 = stat_line("Errors", errors.as_str());
    let l2 = stat_line("Accuracy", accuracy);
    let l3 = stat_line("Language", language);
    let l4 = stat_line("Mode", mode.as_str());
    let l5 = String::new();
    let ghost want = minimal_stats_spec(
        wpm@,
        total_errors as nat,
        accuracy@,
        language@,
        is_time_mode,
        mode_value as nat,
    );
    assert(l0@ =~= want[0]);
    assert(l1@ =~= want[1]);
    assert(l2@ =~= want[2]);
    assert(l3@ =~= want[3]);
    assert(l4@ =~= want[4]);
    assert(l5@ =~= want[5]);
    let mut lines: Vec<String> = Vec::new();
    lines.push(l0);
    lines.push(l1);
    lines.push(l2);
    lines.push(l3);
    lines.push(l4);
    lines.push(l5);
    assert(lines@.map_values(|l: String| l@) =~= minimal_stats_spec(
        wpm@,
        total_errors as nat,
        accuracy@,
        language@,
        is_time_mode,
        mode_value as nat,
    ));
    lines
}

/// The plain results screen in an area `height` rows by `width` columns: `stats` centered
/// vertically, and padding that centers the widest of the lines.
pub fn minimal_results_layout(stats: Vec<String>, height: u16, width: u16) -> (r: MinimalResults)
    ensures
        r.lines@.map_values(|l: String| l@) == vertically_centered(
            stats@.map_values(|l: String| l@),
            height as int,
        ),
        (r.left_pad as int, r.right_pad as int) == horizontal_padding_spec(
            max_line_width_spec(r.lines@.map_values(|l: String| l@)),
            width as int,
        ),
{
    let lines = center_lines_vertically(stats, height);
    let content = max_line_width(lines.as_slice());
    let (left_pad, right_pad) = calculate_horizontal_padding(content, width);
    MinimalResults { lines, left_pad, right_pad }
}

} // verus!
