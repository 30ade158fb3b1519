//! The whole-number parts of the results summary: the mode line, the time taken, where the
//! statistics column starts beside the logo, and the centering of the key hints.

use vstd::prelude::*;
use crate::utils::{decimal, push_decimal};

verus! {

/// The mode as the summary names it: "Time (30 seconds)" or "Words (50 words)".
pub open spec fn results_mode_spec(is_time_mode: bool, value: nat) -> Seq<char> {
    if is_time_mode {
        "Time ("@ + decimal(value) + " seconds)"@
    } else {
        "Words ("@ + decimal(value) + " words)"@
    }
}

/// The mode as the summary names it (see `results_mode_spec`).
pub fn results_mode_text(is_time_mode: bool, value: u64) -> (r: String)
    ensures
        r@ == results_mode_spec(is_time_mode, value as nat),
{
    let mut s = if is_time_mode {
        "Time (".to_owned()
    } else {
        "Words (".to_owned()
    };
    push_decimal(&mut s, value as u128);
    if is_time_mode {
        s.append(" seconds)");
    } else {
        s.append(" words)");
    }
    s
}

/// The time a test took, `secs` whole seconds: "{minutes}m {seconds}s".
pub open spec fn elapsed_spec(secs: nat) -> Seq<char> {
    decimal(secs / 60) + "m "@ + decimal(secs % 60) + seq!['s']
}

/// The time a test took (see `elapsed_spec`).
pub fn elapsed_text(elapsed_seconds: u32) -> (r: String)
    ensures
        r@ == elapsed_spec(elapsed_seconds as nat),
{
    proof {
        reveal_strlit("s");
    }
    let mut s = String::new();
    push_decimal(&mut s, (elapsed_seconds / 60) as u128);
    s.append("m ");
    push_decimal(&mut s, (elapsed_seconds % 60) as u128);
    s.append("s");
    assert(s@ =~= elapsed_spec(elapsed_seconds as nat));
    s
}

/// The column the statistics start at: 35 beside the full logo (from `full_logo_min_width`
/// columns on), else 15.
pub fn stats_offset(width: u16, full_logo_min_width: u16) -> (r: usize)
    ensures
        r == (if width >= full_logo_min_width { 35usize } else { 15usize }),
{
    if width >= full_logo_min_width {
        35
    } else {
        15
    }
}

/// The cell before a statistic: the logo's line padded with spaces to `offset` chars, or
/// `offset` spaces below the logo.
pub open spec fn logo_cell_spec(line: Option<Seq<char>>, offset: int) -> Seq<char> {
    let text = match line {
        Some(l) => l,
        None => Seq::<char>::empty(),
    };
    text + Seq::new((if offset > text.len() { offset - text.len() } else { 0 }) as nat, |i: int| ' ')
}

/// The cell before a statistic (see `logo_cell_spec`).
pub fn logo_cell(line: Option<&str>, offset: usize) -> (r: String)
    ensures
        r@ == logo_cell_spec(
            match line {
                Some(l) => Some(l@),
                None => None,
            },
            offset as int,
        ),
{
    let mut t = match line {
        Some(l) => l.to_owned(),
        None => String::new(),
    };
    let n = crate::text::chars_of(t.as_str()).len();
    let ghost base = t@;
    let mut i = n;
    while i < offset
        invariant
            n == base.len(),
            n <= i <= offset || (n >= offset && i == n),
            t@ == base + Seq::new((i - n) as nat, |j: int| ' '),
        decreases offset - i,
    {
        proof {
            reveal_strlit(" ");
        }
        t.append(" ");
        assert(t@ =~= base + Seq::new((i + 1 - n) as nat, |j: int| ' '));
        i += 1;
    }
    assert(Seq::new((i - n) as nat, |j: int| ' ') =~= Seq::new(
        (if offset > n { offset - n } else { 0 }) as nat,
        |j: int| ' ',
    ));
    t
}

/// The spaces before a line of key hints `hint_len` bytes long, centering it in `width`
/// columns (the length taken as a `u16`).
pub fn hint_padding(hint_len: usize, width: u16) -> (r: u16)
    ensures
        r == (if width >= (hint_len as u16) { (width - (hint_len as u16)) / 2 } else { 0 }),
{
    width.saturating_sub(hint_len as u16) / 2
}

} // verus!
