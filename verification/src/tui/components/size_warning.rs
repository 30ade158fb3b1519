//! The notice shown in place of the screen when the terminal is too small.

use vstd::prelude::*;
use crate::utils::{decimal, push_decimal};

verus! {

/// The fewest rows the screen needs.
pub const MIN_HEIGHT: u16 = 8;

/// The fewest columns the screen needs.
pub const MIN_WIDTH: u16 = 35;

/// The columns the notice takes.
pub const WARNING_WIDTH: u16 = 18;

/// The notice: its lines, which of the two sizes fall short (they show as errors, the others
/// as fine), and the columns it takes.
pub struct SizeWarning {
    pub lines: Vec<String>,
    pub height_too_small: bool,
    pub width_too_small: bool,
    pub max_width: u16,
}

/// "(rows, columns)".
pub open spec fn size_pair_spec(height: nat, width: nat) -> Seq<char> {
    seq!['('] + decimal(height) + seq![',', ' '] + decimal(width) + seq![')']
}

/// The lines of the notice for a terminal `height` rows by `width` columns.
pub open spec fn size_warning_lines(height: nat, width: nat) -> Seq<Seq<char>> {
    seq![
        seq!['!', ' ', 't', 'o', 'o', ' ', 's', 'm', 'o', 'l', '.'],
        size_pair_spec(height, width),
    ]
}

/// The notice for a terminal `height` rows by `width` columns.
pub fn create_size_warning_element(height: u16, width: u16) -> (r: SizeWarning)
    ensures
        r.lines@.map_values(|l: String| l@) == size_warning_lines(height as nat, width as nat),
        r.height_too_small == (height < MIN_HEIGHT),
        r.width_too_small == (width < MIN_WIDTH),
        r.max_width == WARNING_WIDTH,
{
    proof {
        reveal_strlit("! too smol.");
        reveal_strlit("(");
        reveal_strlit(", ");
        reveal_strlit(")");
    }
    let mut pair = String::new();
    pair.append("(");
    push_decimal(&mut pair, height as u128);
    pair.append(", ");
    push_decimal(&mut pair, width as u128);
    pair.append(")");
    assert(pair@ =~= size_pair_spec(height as nat, width as nat));
    let title = "! too smol.".to_owned();
    let ghost want = size_warning_lines(height as nat, width as nat);
    assert(title@ =~= want[0]);
    let mut lines: Vec<String> = Vec::new();
    lines.push(title);
    lines.push(pair);
    assert(lines@.map_values(|l: String| l@) =~= want);
    SizeWarning {
        lines,
        height_too_small: height < MIN_HEIGHT,
        width_too_small: width < MIN_WIDTH,
        max_width: WARNING_WIDTH,
    }
}

} // verus!
