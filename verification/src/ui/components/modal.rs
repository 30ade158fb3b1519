//! The input dialog of the typing screen: its input line.

use vstd::prelude::*;
use vstd::utf8::{decode_utf8, encode_utf8, is_char_boundary};
use crate::tui::components::modal_dialog::ModalContext;

verus! {

/// The dialog.
pub struct ModalComponent;

/// The pieces of the input line: spaces that center it, the input before the cursor, the
/// cursor cell, the input after it, and the unit.
#[derive(Debug)]
pub struct ModalInputLine {
    pub padding: u16,
    pub before_cursor: String,
    pub after_cursor: String,
    pub suffix: &'static str,
}

/// The unit after the input: seconds for a duration, words for a word count.
pub open spec fn unit_spec(ctx: ModalContext) -> Seq<char> {
    match ctx {
        ModalContext::CustomTime => " second(s)"@,
        _ => " word(s)"@,
    }
}

impl ModalComponent {
    /// The input line in a row `area_width` wide, the input `input` with the cursor at byte
    /// `cursor_pos`: centered by the input's bytes, the cursor cell and the unit's chars (the
    /// sum taken as a `u16`).
    pub fn render_modal_input_field(
        input: &str,
        cursor_pos: usize,
        ctx: ModalContext,
        area_width: u16,
    ) -> (r: ModalInputLine)
        requires
            ctx != ModalContext::CustomLineCount,
            is_char_boundary(encode_utf8(input@), cursor_pos as int),
            encode_utf8(input@).len() + 11 <= usize::MAX,
        ensures
            ({
                let bytes = encode_utf8(input@);
                let shown = (bytes.len() + 1 + unit_spec(ctx).len()) as u16;
                &&& r.padding == (if area_width >= shown { (area_width - shown) / 2 } else { 0 })
                &&& r.before_cursor@ == decode_utf8(bytes.subrange(0, cursor_pos as int))
                &&& r.after_cursor@ == decode_utf8(bytes.subrange(cursor_pos as int, bytes.len() as int))
                &&& r.suffix@ == unit_spec(ctx)
            }),
    {
        proof {
            reveal_strlit(" second(s)");
            reveal_strlit(" word(s)");
        }
        let suffix = match ctx {
            ModalContext::CustomTime => " second(s)",
            _ => " word(s)",
        };
        let (before, after) = input.split_at(cursor_pos);
        proof {
            let bytes = encode_utf8(input@);
            assert(encode_utf8(before@) =~= bytes.subrange(0, cursor_pos as int));
            assert(encode_utf8(after@) =~= bytes.subrange(cursor_pos as int, bytes.len() as int));
            vstd::utf8::encode_utf8_decode_utf8(before@);
            vstd::utf8::encode_utf8_decode_utf8(after@);
        }
        let suffix_len = crate::text::chars_of(suffix).len();
        let display_width = (input.len() + 1 + suffix_len) as u16;
        let padding = area_width.saturating_sub(display_width) / 2;
        ModalInputLine {
            padding,
            before_cursor: before.to_owned(),
            after_cursor: after.to_owned(),
            suffix,
        }
    }
}

} // verus!
