//! The results screen.

pub mod bottom_bar;
pub mod minimal;
pub mod neofetch;
