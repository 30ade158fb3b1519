//! The line above the typing area: the test's progress.

use vstd::prelude::*;
use crate::utils::{decimal, push_decimal};

verus! {

/// The progress as it reads: in a timed test the whole seconds left (none once the time is
/// up), otherwise the words completed over the words of the test.
pub open spec fn tracker_progress_spec(
    is_time_mode: bool,
    total_secs: nat,
    elapsed_secs: nat,
    completed_words: nat,
    total_words: nat,
) -> Seq<char> {
    if is_time_mode {
        decimal(if total_secs >= elapsed_secs { (total_secs - elapsed_secs) as nat } else { 0 })
    } else {
        decimal(completed_words) + seq!['/'] + decimal(total_words)
    }
}

/// The progress of a test that has run `elapsed_secs` whole seconds (see
/// `tracker_progress_spec`); both counts of seconds within `i64`, where the difference is
/// taken.
pub fn tracker_progress(
    is_time_mode: bool,
    total_secs: u64,
    elapsed_secs: u64,
    completed_words: usize,
    total_words: usize,
) -> (r: String)
    requires
        total_secs <= i64::MAX,
        elapsed_secs <= i64::MAX,
    ensures
        r@ == tracker_progress_spec(
            is_time_mode,
            total_secs as nat,
            elapsed_secs as nat,
            completed_words as nat,
            total_words as nat,
        ),
{
    let mut s = String::new();
    if is_time_mode {
        push_decimal(&mut s, total_secs.saturating_sub(elapsed_secs) as u128);
    } else {
        proof {
            reveal_strlit("/");
        }
        push_decimal(&mut s, completed_words as u128);
        s.append("/");
        push_decimal(&mut s, total_words as u128);
    }
    assert(s@ =~= tracker_progress_spec(
        is_time_mode,
        total_secs as nat,
        elapsed_secs as nat,
        completed_words as nat,
        total_words as nat,
    ));
    s
}

} // verus!
