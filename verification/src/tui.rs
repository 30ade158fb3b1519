//! Layout logic of the newer terminal interface: picker overlays, wrapping and notifications.

pub mod components;
pub mod layout;
pub mod renderer;
pub mod utils;
