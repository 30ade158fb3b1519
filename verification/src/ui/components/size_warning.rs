//! The notice shown when the terminal is smaller than the screen needs.

use vstd::prelude::*;
use crate::utils::{decimal, push_decimal};

verus! {

/// The notice.
pub struct SizeWarningComponent;

/// What the notice shows: its lines, centered, and which of the current sizes fall short
/// (they show as errors, the others as fine).
pub struct SizeNotice {
    pub lines: Vec<String>,
    pub width_too_small: bool,
    pub height_too_small: bool,
}

/// "Width = w Height = h".
pub open spec fn dimensions_spec(width: nat, height: nat) -> Seq<char> {
    seq!['W', 'i', 'd', 't', 'h', ' ', '=', ' '] + decimal(width) + seq![
        ' ',
        'H',
        'e',
        'i',
        'g',
        'h',
        't',
        ' ',
        '=',
        ' ',
    ] + decimal(height)
}

/// The lines of the notice for a terminal `width` by `height` that needs `min_width` by
/// `min_height`.
pub open spec fn size_notice_lines(width: nat, height: nat, min_width: nat, min_height: nat) -> Seq<
    Seq<char>,
> {
    seq![
        seq!['!', ' ', 's', 'i', 'z', 'e', ' ', 't', 'o', 'o', ' ', 's', 'm', 'a', 'l', 'l'],
        Seq::<char>::empty(),
        seq!['C', 'u', 'r', 'r', 'e', 'n', 't', ':'],
        Seq::<char>::empty(),
        dimensions_spec(width, height),
        Seq::<char>::empty(),
        seq!['N', 'e', 'e', 'd', 'e', 'd', ':'],
        Seq::<char>::empty(),
        dimensions_spec(min_width, min_height),
    ]
}

/// "Width = w Height = h".
fn dimensions(width: u16, height: u16) -> (r: String)
    ensures
        r@ == dimensions_spec(width as nat, height as nat),
{
    proof {
        reveal_strlit("Width = ");
        reveal_strlit(" Height = ");
    }
    let mut s = String::new();
    s.append("Width = ");
    push_decimal(&mut s, width as u128);
    s.append(" Height = ");
    push_decimal(&mut s, height as u128);
    assert(s@ =~= dimensions_spec(width as nat, height as nat));
    s
}

impl SizeWarningComponent {
    /// The notice for a terminal `width` by `height` that needs `min_width` by `min_height`.
    pub fn create(width: u16, height: u16, min_width: u16, min_height: u16) -> (r: SizeNotice)
        ensures
            r.lines@.map_values(|l: String| l@) == size_notice_lines(
                width as nat,
                height as nat,
                min_width as nat,
                min_height as nat,
            ),
            r.width_too_small == (width < min_width),
            r.height_too_small == (height < min_height),
    {
        proof {
            reveal_strlit("! size too small");
            reveal_strlit("Current:");
            reveal_strlit("Needed:");
        }
        let ghost want = size_notice_lines(
            width as nat,
            height as nat,
            min_width as nat,
            min_height as nat,
        );
        let l0 = "! size too small".to_owned();
        let l2 = "Current:".to_owned();
        let l4 = dimensions(width, height);
        let l6 = "Needed:".to_owned();
        let l8 = dimensions(min_width, min_height);
        assert(l0@ =~= want[0]);
        assert(l2@ =~= want[2]);
        assert(l6@ =~= want[6]);
        let mut lines: Vec<String> = Vec::new();
        lines.push(l0);
        lines.push(String::new());
        lines.push(l2);
        lines.push(String::new());
        lines.push(l4);
        lines.push(String::new());
        lines.push(l6);
        lines.push(String::new());
        lines.push(l8);
        assert(lines@.map_values(|l: String| l@) =~= want);
        SizeNotice {
            lines,
            width_too_small: width < min_width,
            height_too_small: height < min_height,
        }
    }
}

} // verus!
