//! Components of the newer terminal interface.

pub mod notifications;
pub mod results;
pub mod leaderboard;
pub mod modal_dialog;
pub mod mode_bar;
pub mod pickers;
pub mod size_warning;
pub mod target_styles;
pub mod typing_area;
pub mod typing_cache;
