//! The reminder pop-up: its settings and what its buttons do.
use vstd::prelude::*;
use crate::calendar::{checked_add_seconds, in_calendar, shifted_by, shifted_instant, DateTime};
use crate::reminder::Reminder;

verus! {

/// What the user does with a pop-up.
#[derive(Clone, Copy, Debug, PartialEq, Eq, Structural)]
pub enum PopupAction {
    /// Close the pop-up.
    Dismiss,
    /// Remind again after this many minutes.
    Snooze(u32),
    /// Mark the reminder completed.
    Complete,
}

/// Pop-up settings.
#[derive(Clone, Copy, Debug)]
pub struct PopupConfig {
    /// Seconds after which the pop-up closes by itself.
    pub auto_close_secs: u32,
}

impl Default for PopupConfig {
    fn default() -> (c: Self)
        ensures
            c.auto_close_secs == 30,
    {
        PopupConfig { auto_close_secs: 30 }
    }
}

/// The snooze choices, in minutes.
pub fn snooze_options() -> (v: Vec<u32>)
    ensures
        v@ == seq![5u32, 15u32, 30u32, 60u32],
{
    let mut v: Vec<u32> = Vec::new();
    v.push(5);
    v.push(15);
    v.push(30);
    v.push(60);
    v
}

/// Carries out a pop-up action on `reminder` at `now`. Snoozing returns the
/// time to remind again; completing marks the reminder completed; dismissing
/// changes nothing.
pub fn handle_action(action: &PopupAction, reminder: &mut Reminder, now: &DateTime) -> (r: Option<DateTime>)
    requires
        now.valid(),
        *action matches PopupAction::Snooze(m) ==> in_calendar(shifted_instant(*now, m * 60)),
    ensures
        match *action {
            PopupAction::Dismiss => r is None && *final(reminder) == *old(reminder),
            PopupAction::Snooze(m) => r matches Some(x) && shifted_by(*now, m * 60, x)
                && *final(reminder) == *old(reminder),
            PopupAction::Complete => r is None && *final(reminder) == (Reminder {
                completed: true,
                ..*old(reminder)
            }),
        },
{
    match action {
        PopupAction::Dismiss => None,
        PopupAction::Snooze(minutes) => {
            let secs: i64 = *minutes as i64 * 60;
            match checked_add_seconds(*now, secs) {
                Some(x) => Some(x),
                None => {
                    proof {
                        assert(false);
                    }
                    None
                },
            }
        },
        PopupAction::Complete => {
            reminder.completed = true;
            None
        },
    }
}

} // verus!
