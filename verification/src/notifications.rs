//! Notifications shown in a corner of the screen.

use vstd::prelude::*;

verus! {

/// How serious a notification is; decides its icon and color.
#[derive(Debug, Clone, Copy, PartialEq, Eq, Structural)]
pub enum NotificationSeverity {
    Info,
    Warning,
    Error,
}

/// The corner that notifications stack in.
#[derive(Debug, Clone, Copy, PartialEq, Eq, Structural)]
pub enum NotificationPosition {
    TopLeft,
    TopRight,
    BottomLeft,
    BottomRight,
}

/// A notification: a title line and an optional message below it.
#[derive(Debug)]
pub struct Notification {
    pub title: String,
    pub message: String,
    pub severity: NotificationSeverity,
}

} // verus!
