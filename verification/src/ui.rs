//! Layout logic of the typing screen: word placement, centering, menus and notifications.

pub mod actions;
pub mod components;
pub mod elements;
pub mod helpers;
pub mod layout;
pub mod render;
pub mod utils;

use vstd::prelude::*;
use crate::geometry::Rect;

verus! {

/// A rectangle `px` percent as wide and `py` percent as tall as `r`, centered in it
/// (sizes rounded down).
pub fn centered_rect(px: u16, py: u16, r: Rect) -> (res: Rect)
    requires
        r.width * px <= u16::MAX,
        r.height * py <= u16::MAX,
        r.x + (r.width - r.width * px / 100) / 2 <= u16::MAX || r.width * px / 100 > r.width,
        r.y + (r.height - r.height * py / 100) / 2 <= u16::MAX || r.height * py / 100 > r.height,
        r.fits(),
    ensures
        ({
            let w = r.width * px / 100;
            let h = r.height * py / 100;
            let hm = if r.width >= w { (r.width - w) / 2 } else { 0 };
            let vm = if r.height >= h { (r.height - h) / 2 } else { 0 };
            res == Rect {
                x: (r.x + hm) as u16,
                y: (r.y + vm) as u16,
                width: w as u16,
                height: h as u16,
            }
        }),
{
    let width = r.width * px / 100;
    let height = r.height * py / 100;
    let horizontal_margin = r.width.saturating_sub(width) / 2;
    let vertical_margin = r.height.saturating_sub(height) / 2;
    Rect { x: r.x + horizontal_margin, y: r.y + vertical_margin, width, height }
}

/// The colour of a char of the plain text view.
#[derive(Debug, Clone, Copy, PartialEq, Eq, Structural)]
pub enum PlainColor {
    /// Typed as in the target.
    Green,
    /// Typed otherwise.
    Red,
    /// Not typed yet: dim white.
    DimWhite,
}

/// The style of char `i` of the target: by what was typed at its place, underlined at the
/// cursor.
pub open spec fn plain_style_spec(target: Seq<char>, input: Seq<Option<char>>, cursor: int, i: int) -> (
    char,
    PlainColor,
    bool,
) {
    let color = if 0 <= i < input.len() && input[i] is Some {
        if input[i] == Some(target[i]) {
            PlainColor::Green
        } else {
            PlainColor::Red
        }
    } else {
        PlainColor::DimWhite
    };
    (target[i], color, i == cursor)
}

/// The target text as one line of styled chars (see `plain_style_spec`).
pub fn render_text(target: &str, user_input: &[Option<char>], cursor_pos: usize) -> (r: Vec<(char, PlainColor, bool)>)
    ensures
        r@.len() == target@.len(),
        forall|i: int|
            0 <= i < target@.len() ==> #[trigger] r@[i] == plain_style_spec(
                target@,
                user_input@,
                cursor_pos as int,
                i,
            ),
{
    let chars = crate::text::chars_of(target);
    let mut out: Vec<(char, PlainColor, bool)> = Vec::new();
    let mut i: usize = 0;
    while i < chars.len()
        invariant
            chars@ == target@,
            i <= chars@.len(),
            out@.len() == i,
            forall|k: int|
                0 <= k < i ==> #[trigger] out@[k] == plain_style_spec(
                    target@,
                    user_input@,
                    cursor_pos as int,
                    k,
                ),
        decreases chars.len() - i,
    {
        let c = chars[i];
        let color = if i < user_input.len() {
            match user_input[i] {
                Some(typed) => {
                    if typed == c {
                        PlainColor::Green
                    } else {
                        PlainColor::Red
                    }
                },
                None => PlainColor::DimWhite,
            }
        } else {
            PlainColor::DimWhite
        };
        let ghost before = out@;
        out.push((c, color, i == cursor_pos));
        assert forall|k: int| 0 <= k < i + 1 implies #[trigger] out@[k] == plain_style_spec(
            target@,
            user_input@,
            cursor_pos as int,
            k,
        ) by {
            if k < i {
                assert(out@[k] == before[k]);
            }
        }
        i += 1;
    }
    out
}

} // verus!
