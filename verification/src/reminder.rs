//! The reminder model.
use vstd::prelude::*;
use vstd::string::*;
use crate::calendar::{Date, DateTime, Time};

verus! {

/// How often a recurring reminder fires.
#[derive(Clone, Copy, Debug, PartialEq, Eq, Structural)]
pub enum RepeatInterval {
    Minutes(u32),
    Hours(u32),
    Days(u32),
}

impl RepeatInterval {
    /// The length of the interval in seconds.
    pub open spec fn seconds(self) -> int {
        match self {
            RepeatInterval::Minutes(n) => n * 60,
            RepeatInterval::Hours(n) => n * 3600,
            RepeatInterval::Days(n) => n * 86400,
        }
    }

    /// The length of the interval in seconds.
    pub fn num_seconds(&self) -> (r: i64)
        ensures
            r == self.seconds(),
            0 <= r <= u32::MAX * 86400,
    {
        match self {
            RepeatInterval::Minutes(n) => *n as i64 * 60,
            RepeatInterval::Hours(n) => *n as i64 * 3600,
            RepeatInterval::Days(n) => *n as i64 * 86400,
        }
    }
}

/// A reminder: what to say, when, and its state.
#[derive(Clone, Debug)]
pub struct Reminder {
    pub title: String,
    pub content: String,
    pub enabled: bool,
    pub completed: bool,
    /// The repeat rule; none for a reminder that does not recur.
    pub repeat: Option<RepeatInterval>,
    /// When the reminder fires next.
    pub next_trigger: Option<DateTime>,
    /// First day on which the reminder may fire.
    pub start_date: Option<Date>,
    /// Last day on which the reminder may fire.
    pub end_date: Option<Date>,
    /// Earliest time of day at which the reminder may fire.
    pub daily_start: Option<Time>,
    /// Latest time of day at which the reminder may fire.
    pub daily_end: Option<Time>,
    /// How many times the reminder may fire at most.
    pub repeat_limit: Option<u32>,
    /// How many times the reminder has fired.
    pub trigger_count: u32,
}

impl Reminder {
    /// Every date and time the reminder holds is a valid one.
    pub open spec fn wf(self) -> bool {
        &&& (self.next_trigger matches Some(t) ==> t.valid())
        &&& (self.start_date matches Some(d) ==> d.valid())
        &&& (self.end_date matches Some(d) ==> d.valid())
        &&& (self.daily_start matches Some(t) ==> t.valid())
        &&& (self.daily_end matches Some(t) ==> t.valid())
    }

    /// A fresh reminder: enabled, not completed, not recurring, without any
    /// schedule or limit.
    pub open spec fn is_fresh(self, title: Seq<char>, content: Seq<char>) -> bool {
        &&& self.title@ == title
        &&& self.content@ == content
        &&& self.enabled
        &&& !self.completed
        &&& self.repeat is None
        &&& self.next_trigger is None
        &&& self.start_date is None
        &&& self.end_date is None
        &&& self.daily_start is None
        &&& self.daily_end is None
        &&& self.repeat_limit is None
        &&& self.trigger_count == 0
    }

    pub fn new(title: &str, content: &str) -> (r: Reminder)
        ensures
            r.is_fresh(title@, content@),
            r.wf(),
    {
        Reminder {
            title: String::from_str(title),
            content: String::from_str(content),
            enabled: true,
            completed: false,
            repeat: None,
            next_trigger: None,
            start_date: None,
            end_date: None,
            daily_start: None,
            daily_end: None,
            repeat_limit: None,
            trigger_count: 0,
        }
    }

    /// The same reminder, recurring at `interval`.
    pub fn with_repeat(self, interval: RepeatInterval) -> (r: Reminder)
        ensures
            r == (Reminder { repeat: Some(interval), ..self }),
    {
        Reminder { repeat: Some(interval), ..self }
    }
}

/// A repeat interval of `n` minutes, hours or days lasts `n` times 60,
/// 3600 or 86400 seconds.
pub proof fn law_interval_seconds(n: u32)
    ensures
        RepeatInterval::Minutes(n).seconds() == 60 * n,
        RepeatInterval::Hours(n).seconds() == 3600 * n,
        RepeatInterval::Days(n).seconds() == 86400 * n,
{
}

} // verus!
