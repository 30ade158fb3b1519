//! Layout, wrapping and formatting logic of a terminal typing test.

pub mod config;
pub mod geometry;
pub mod notifications;
pub mod text;
pub mod tui;
pub mod ui;
pub mod utils;
pub mod variants;
