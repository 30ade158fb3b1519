//! The mode line above the typing area.

use vstd::prelude::*;
use crate::geometry::Padding;
use crate::ui::components::action_bar::BarSettings;
use crate::utils::{decimal, push_decimal};

verus! {

/// The narrowest container that shows the whole mode line; narrower ones show a compact
/// pointer to the menu.
pub const MODE_LINE_MIN_WIDTH: u16 = 80;

/// The mode line: its pieces of text, each marked when it shows highlighted, and its padding.
pub struct ModeLine {
    pub spans: Vec<(String, bool)>,
    pub padding: Padding,
}

/// The pieces as plain values.
pub open spec fn spans_view(spans: Seq<(String, bool)>) -> Seq<(Seq<char>, bool)> {
    spans.map_values(|p: (String, bool)| (p.0@, p.1))
}

/// The piece of a mode value: the value and a space, highlighted when it is the current value.
pub open spec fn value_span(value: usize, current: usize) -> (Seq<char>, bool) {
    (decimal(value as nat) + seq![' '], value == current)
}

/// The values offered: 15, 30, 60 and 120 seconds, or 10, 25, 50 and 100 words.
pub open spec fn mode_values(is_time_mode: bool) -> Seq<usize> {
    if is_time_mode {
        seq![15usize, 30usize, 60usize, 120usize]
    } else {
        seq![10usize, 25usize, 50usize, 100usize]
    }
}

/// The pieces of the mode line in a container `width` columns wide: the compact pointer to
/// the menu when narrower than `MODE_LINE_MIN_WIDTH`, else the three toggles, a separator,
/// the two modes, a separator and the four values, each highlighted when it is in effect.
pub open spec fn mode_line_spec(s: BarSettings, width: u16) -> Seq<(Seq<char>, bool)> {
    if width < MODE_LINE_MIN_WIDTH {
        seq![("☰ "@, false), ("Menu "@, false), ("<esc>"@, false)]
    } else {
        let v = mode_values(s.is_time_mode);
        seq![
            ("! punctuation "@, s.use_punctuation),
            ("# numbers "@, s.use_numbers),
            ("@ symbols "@, s.use_symbols),
            ("| "@, false),
            ("T time "@, s.is_time_mode),
            ("A words "@, !s.is_time_mode),
            ("| "@, false),
            value_span(v[0], s.current_value),
            value_span(v[1], s.current_value),
            value_span(v[2], s.current_value),
            value_span(v[3], s.current_value),
        ]
    }
}

/// The mode line for the settings `s` in a container `container_height` rows by
/// `container_width` columns.
pub fn create_mode_line(s: BarSettings, container_height: u16, container_width: u16) -> (r: ModeLine)
    ensures
        spans_view(r.spans@) == mode_line_spec(s, container_width),
        r.padding == mode_line_padding_spec(container_height),
{
    let padding = mode_line_padding(container_height);
    let ghost want = mode_line_spec(s, container_width);
    let mut spans: Vec<(String, bool)> = Vec::new();
    if container_width < MODE_LINE_MIN_WIDTH {
        spans.push(("☰ ".to_owned(), false));
        spans.push(("Menu ".to_owned(), false));
        spans.push(("<esc>".to_owned(), false));
        assert(spans_view(spans@) =~= want);
        return ModeLine { spans, padding };
    }
    spans.push(("! punctuation ".to_owned(), s.use_punctuation));
    spans.push(("# numbers ".to_owned(), s.use_numbers));
    spans.push(("@ symbols ".to_owned(), s.use_symbols));
    spans.push(("| ".to_owned(), false));
    spans.push(("T time ".to_owned(), s.is_time_mode));
    spans.push(("A words ".to_owned(), !s.is_time_mode));
    spans.push(("| ".to_owned(), false));
    let values: [usize; 4] = if s.is_time_mode {
        [15, 30, 60, 120]
    } else {
        [10, 25, 50, 100]
    };
    let mut i: usize = 0;
    while i < 4
        invariant
            i <= 4,
            values@ == mode_values(s.is_time_mode),
            container_width >= MODE_LINE_MIN_WIDTH,
            want == mode_line_spec(s, container_width),
            spans@.len() == 7 + i,
            forall|k: int| 0 <= k < 7 + i ==> (#[trigger] spans@[k]).0@ == want[k].0 && spans@[k].1
                == want[k].1,
        decreases 4 - i,
    {
        let v = values[i];
        let mut text = String::new();
        push_decimal(&mut text, v as u128);
        proof {
            reveal_strlit(" ");
        }
        text.append(" ");
        assert(text@ =~= decimal(v as nat) + seq![' ']);
        let ghost before = spans@;
        spans.push((text, v == s.current_value));
        assert forall|k: int| 0 <= k < 8 + i implies (#[trigger] spans@[k]).0@ == want[k].0
            && spans@[k].1 == want[k].1 by {
            if k < 7 + i {
                assert(spans@[k] == before[k]);
            }
        }
        i += 1;
    }
    assert(spans_view(spans@) =~= want);
    ModeLine { spans, padding }
}

/// Three rows of padding on top once the container has eight rows, none before.
pub open spec fn mode_line_padding_spec(height: u16) -> Padding {
    Padding { left: 0, right: 0, top: (if height >= 8 { 3u16 } else { 0u16 }), bottom: 0 }
}

/// The padding of the mode line in a container `height` rows tall: three rows from the top
/// once the container has eight rows, none before.
pub fn mode_line_padding(height: u16) -> (r: Padding)
    ensures
        r == (Padding { left: 0, right: 0, top: (if height >= 8 { 3u16 } else { 0u16 }), bottom: 0 }),
{
    let top_padding: u16 = if height >= 8 {
        3
    } else {
        0
    };
    Padding { left: 0, right: 0, top: top_padding, bottom: 0 }
}

} // verus!
