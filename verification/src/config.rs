//! Application settings.
use vstd::prelude::*;

verus! {

/// How a due reminder is shown.
#[derive(Clone, Copy, Debug, PartialEq, Eq, Structural)]
pub enum NotificationMethod {
    SystemNotification,
    WindowPopup,
    Both,
}

/// The application's settings.
#[derive(Clone, Copy, Debug, PartialEq, Eq, Structural)]
pub struct AppConfig {
    pub notification_method: NotificationMethod,
    pub default_snooze_minutes: u32,
}

impl Default for AppConfig {
    /// Both kinds of notification, and a snooze of 15 minutes.
    fn default() -> (c: Self)
        ensures
            c.notification_method == NotificationMethod::Both,
            c.default_snooze_minutes == 15,
    {
        AppConfig { notification_method: NotificationMethod::Both, default_snooze_minutes: 15 }
    }
}

} // verus!
