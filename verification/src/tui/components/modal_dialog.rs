//! The modal dialog: its size, its input line and its button.

use vstd::prelude::*;
use vstd::utf8::{decode_utf8, encode_utf8, is_char_boundary};
use crate::variants::str_equals;

verus! {

/// What a modal dialog asks for.
#[derive(Debug, Clone, Copy, PartialEq, Eq, Structural)]
pub enum ModalKind {
    /// A value typed in.
    Input,
    /// A yes.
    Confirmation,
}

/// The value a modal input asks for.
#[derive(Debug, Clone, Copy, PartialEq, Eq, Structural)]
pub enum ModalContext {
    /// A test duration in seconds (at most 300).
    CustomTime,
    /// A number of words (at most 5000).
    CustomWordCount,
    /// A number of visible lines (at most 10).
    CustomLineCount,
}

/// The pieces of the input line: spaces, the input before the cursor, the cursor cell,
/// the input after it, spaces up to the field's width, and the unit.
#[derive(Debug)]
pub struct InputField {
    pub left_padding: usize,
    pub before_cursor: String,
    pub after_cursor: String,
    pub fill: usize,
    pub suffix: &'static str,
}

/// The modal dialog.
pub struct ModalDialog;

/// The width of the input field (in bytes of input) and the unit after it.
pub open spec fn input_limits_spec(ctx: ModalContext) -> (usize, Seq<char>) {
    match ctx {
        ModalContext::CustomTime => (3, " second(s)"@),
        ModalContext::CustomWordCount => (4, " word(s)"@),
        ModalContext::CustomLineCount => (2, " line(s)"@),
    }
}

/// The bytes of input shown (its first `input_len` bytes, up to the field's width) and the
/// cursor (kept within the field's width).
pub open spec fn shown_input(input_len: int, cursor_pos: usize, ctx: ModalContext) -> (int, int) {
    let width = input_limits_spec(ctx).0 as int;
    let k = if input_len < width { input_len } else { width };
    let c = if cursor_pos < width { cursor_pos as int } else { width };
    (k, c)
}

impl ModalDialog {
    /// The size of the dialog: 60 by 12 cells for an input, 60 by 10 for a confirmation.
    pub fn size(kind: ModalKind) -> (r: (u16, u16))
        ensures
            r == (match kind {
                ModalKind::Input => (60u16, 12u16),
                ModalKind::Confirmation => (60u16, 10u16),
            }),
    {
        match kind {
            ModalKind::Input => (60, 12),
            ModalKind::Confirmation => (60, 10),
        }
    }

    /// The width of the input field and the unit shown after it.
    pub fn input_limits(ctx: ModalContext) -> (r: (usize, &'static str))
        ensures
            (r.0, r.1@) == input_limits_spec(ctx),
    {
        match ctx {
            ModalContext::CustomTime => (3, " second(s)"),
            ModalContext::CustomWordCount => (4, " word(s)"),
            ModalContext::CustomLineCount => (2, " line(s)"),
        }
    }

    /// The input line in a row `area_width` wide: the input cut to the field's width, the
    /// cursor at `cursor_pos` (kept within the field), the field filled up with spaces, and
    /// the whole, field and unit, centered.
    pub fn input_field(input: &str, cursor_pos: usize, ctx: ModalContext, area_width: u16) -> (r: InputField)
        requires
            ({
                let (k, c) = shown_input(input.len() as int, cursor_pos, ctx);
                &&& c <= k
                &&& is_char_boundary(encode_utf8(input@), k)
                &&& is_char_boundary(encode_utf8(input@), c)
            }),
        ensures
            ({
                let (width, suffix) = input_limits_spec(ctx);
                let (k, c) = shown_input(input.len() as int, cursor_pos, ctx);
                let bytes = encode_utf8(input@);
                let total = width + suffix.len();
                &&& r.left_padding == (if area_width >= total { (area_width - total) / 2 } else { 0 })
                &&& r.before_cursor@ == decode_utf8(bytes.subrange(0, c))
                &&& r.after_cursor@ == decode_utf8(bytes.subrange(c, k))
                &&& r.fill == width - k
                &&& r.suffix@ == suffix
            }),
    {
        let (width, suffix) = Self::input_limits(ctx);
        let k = if input.len() < width {
            input.len()
        } else {
            width
        };
        let (shown, _) = input.split_at(k);
        let cursor = if cursor_pos < width {
            cursor_pos
        } else {
            width
        };
        proof {
            let bytes = encode_utf8(input@);
            let pre = bytes.subrange(0, k as int);
            vstd::utf8::encode_utf8_valid_utf8(input@);
            vstd::utf8::valid_utf8_split(bytes, k as int);
            assert(encode_utf8(shown@) =~= pre);
            if cursor < k {
                vstd::utf8::is_char_boundary_iff_not_is_continuation_byte(bytes, cursor as int);
                vstd::utf8::is_char_boundary_iff_not_is_continuation_byte(pre, cursor as int);
                assert(pre[cursor as int] == bytes[cursor as int]);
            } else {
                vstd::utf8::is_char_boundary_start_end_of_seq(pre);
            }
        }
        let (before, after) = shown.split_at(cursor);
        proof {
            let bytes = encode_utf8(input@);
            assert(encode_utf8(before@) =~= bytes.subrange(0, cursor as int));
            assert(encode_utf8(after@) =~= bytes.subrange(cursor as int, k as int));
            vstd::utf8::encode_utf8_decode_utf8(before@);
            vstd::utf8::encode_utf8_decode_utf8(after@);
        }
        proof {
            reveal_strlit(" second(s)");
            reveal_strlit(" word(s)");
            reveal_strlit(" line(s)");
        }
        let total_width = width + crate::text::chars_of(suffix).len();
        let left_padding = (area_width as usize).saturating_sub(total_width) / 2;
        InputField {
            left_padding,
            before_cursor: before.to_owned(),
            after_cursor: after.to_owned(),
            fill: width - k,
            suffix,
        }
    }

    /// The button and the spaces before it that center it in a row `area_width` wide:
    /// "<OK>" for an input, "<Yes>" for a confirmation.
    pub fn button(kind: ModalKind, area_width: u16) -> (r: (u16, &'static str))
        ensures
            r.1@ == (match kind {
                ModalKind::Input => "<OK>"@,
                ModalKind::Confirmation => "<Yes>"@,
            }),
            r.0 == (if area_width >= r.1@.len() { (area_width - r.1@.len()) / 2 } else { 0 }),
    {
        let text = match kind {
            ModalKind::Input => "<OK>",
            ModalKind::Confirmation => "<Yes>",
        };
        proof {
            reveal_strlit("<OK>");
            reveal_strlit("<Yes>");
        }
        let len: u16 = if str_equals(text, "<OK>") {
            4
        } else {
            5
        };
        let padding = area_width.saturating_sub(len) / 2;
        (padding, text)
    }
}

} // verus!
