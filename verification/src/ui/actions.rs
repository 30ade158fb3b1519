//! What clicks on the screen do.

use vstd::prelude::*;
use crate::config::ModeType;

verus! {

/// The action bound to a clickable region.
#[derive(Debug, Clone, Copy, PartialEq, Eq, Structural)]
pub enum TermiClickAction {
    SwitchMode(ModeType),
    SetModeValue(usize),
    TogglePunctuation,
    ToggleSymbols,
    ToggleNumbers,
    ToggleThemePicker,
    ToggleLanguagePicker,
    ToggleAbout,
}

} // verus!
