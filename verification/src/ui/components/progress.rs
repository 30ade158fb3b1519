//! The line above the text that shows the test's progress: the language before the test
//! starts, then the time left or the words typed.

use vstd::prelude::*;
use crate::geometry::Rect;
use crate::utils::{decimal, push_decimal};

verus! {

/// The number of spaces typed: the words finished.
pub open spec fn spaces_typed(input: Seq<Option<char>>) -> nat
    decreases input.len(),
{
    if input.len() == 0 {
        0
    } else {
        spaces_typed(input.drop_last()) + (if input.last() == Some(' ') { 1nat } else { 0nat })
    }
}

/// The progress as it reads: in a timed test the seconds left (the test's duration before
/// the clock runs), otherwise the words finished over the words in the test.
pub open spec fn progress_text_spec(
    is_time_mode: bool,
    duration: nat,
    time_remaining: Option<u64>,
    input: Seq<Option<char>>,
    word_count: nat,
) -> Seq<char> {
    if is_time_mode {
        match time_remaining {
            Some(secs) => decimal(secs as nat),
            None => decimal(duration),
        }
    } else {
        decimal(spaces_typed(input)) + seq!['/'] + decimal(word_count)
    }
}

/// The progress as it reads (see `progress_text_spec`).
pub fn progress_text(
    is_time_mode: bool,
    duration: u64,
    time_remaining: Option<u64>,
    user_input: &[Option<char>],
    word_count: usize,
) -> (r: String)
    ensures
        r@ == progress_text_spec(
            is_time_mode,
            duration as nat,
            time_remaining,
            user_input@,
            word_count as nat,
        ),
{
    let mut s = String::new();
    if is_time_mode {
        match time_remaining {
            Some(secs) => push_decimal(&mut s, secs as u128),
            None => push_decimal(&mut s, duration as u128),
        }
        assert(s@ =~= progress_text_spec(
            is_time_mode,
            duration as nat,
            time_remaining,
            user_input@,
            word_count as nat,
        ));
    } else {
        let mut completed: usize = 0;
        let mut i: usize = 0;
        while i < user_input.len()
            invariant
                i <= user_input@.len(),
                completed == spaces_typed(user_input@.take(i as int)),
                completed <= i,
            decreases user_input.len() - i,
        {
            assert(user_input@.take(i + 1).drop_last() =~= user_input@.take(i as int));
            if user_input[i] == Some(' ') {
                completed = completed + 1;
            }
            i += 1;
        }
        assert(user_input@.take(i as int) =~= user_input@);
        push_decimal(&mut s, completed as u128);
        proof {
            reveal_strlit("/");
        }
        s.append("/");
        push_decimal(&mut s, word_count as u128);
        assert(s@ =~= progress_text_spec(
            is_time_mode,
            duration as nat,
            time_remaining,
            user_input@,
            word_count as nat,
        ));
    }
    s
}

/// The bar that shows the test's progress in the newer screen layout.
pub struct ModeBarComponent;

/// The phase of the test, as far as the bar tells them apart.
#[derive(Debug, Clone, Copy, PartialEq, Eq, Structural)]
pub enum TestPhase {
    /// Not started, or paused.
    Waiting,
    /// Running.
    Typing,
    /// Anything else (such as finished).
    Other,
}

/// What the bar shows.
#[derive(Debug, PartialEq, Eq)]
pub enum ModeBarView {
    /// The language of the test, muted, centered; a click opens the language picker.
    Language(String),
    /// The progress, highlighted, with the live speed after it unless hidden.
    Progress { text: String, show_wpm: bool },
    /// Nothing.
    Empty,
}

impl ModeBarComponent {
    /// What the bar shows in `phase`: the language while waiting, the progress (see
    /// `progress_text_spec`) while typing, nothing otherwise.
    pub fn create(
        phase: TestPhase,
        language: &str,
        is_time_mode: bool,
        duration: u64,
        time_remaining: Option<u64>,
        user_input: &[Option<char>],
        word_count: usize,
        hide_live_wpm: bool,
    ) -> (r: ModeBarView)
        ensures
            phase == TestPhase::Waiting ==> (r matches ModeBarView::Language(l) && l@ == language@),
            phase == TestPhase::Typing ==> (r matches ModeBarView::Progress { text, show_wpm } && text@
                == progress_text_spec(
                is_time_mode,
                duration as nat,
                time_remaining,
                user_input@,
                word_count as nat,
            ) && show_wpm == !hide_live_wpm),
            phase == TestPhase::Other ==> r == ModeBarView::Empty,
    {
        match phase {
            TestPhase::Waiting => ModeBarView::Language(language.to_owned()),
            TestPhase::Typing => ModeBarView::Progress {
                text: progress_text(is_time_mode, duration, time_remaining, user_input, word_count),
                show_wpm: !hide_live_wpm,
            },
            TestPhase::Other => ModeBarView::Empty,
        }
    }
}

/// Where the language, `width` columns wide, stands before the test starts: centered on the
/// first row of `area`, one row tall (its clickable region).
pub fn language_region(area: Rect, width: u16) -> (r: Rect)
    requires
        area.x + (if area.width >= width { (area.width - width) / 2 } else { 0 }) <= u16::MAX,
    ensures
        r == (Rect {
            x: (area.x + (if area.width >= width { (area.width - width) / 2 } else { 0 })) as u16,
            y: area.y,
            width,
            height: 1,
        }),
{
    let start_x = area.x + area.width.saturating_sub(width) / 2;
    Rect { x: start_x, y: area.y, width, height: 1 }
}

} // verus!
