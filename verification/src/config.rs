//! The test modes the typing test runs in.

use vstd::prelude::*;

verus! {

/// The kind of test: against the clock, or for a number of words.
#[derive(Debug, Clone, Copy, PartialEq, Eq, Structural)]
pub enum ModeType {
    Time,
    Words,
}

} // verus!
