//! Helpers shared by the screen components: placement, symbols and caches.

pub mod menu;
pub mod utils;
pub mod positioning;
