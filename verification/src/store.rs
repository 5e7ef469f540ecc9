//! The list of reminders and the operations the application performs on it.
use vstd::prelude::*;
use crate::calendar::{local_now, shifted_by, DateTime};
use crate::reminder::{Reminder, RepeatInterval};
use crate::text::result_view;
use crate::time::{
    can_schedule, fired_at, fires, lemma_fired_not_due, next_trigger_time, schedulable, should_trigger_recurring,
    update_after_trigger,
};
use crate::ui::{
    delete_reminder, edit_reminder, edit_result, form_shows, index_error, index_error_message,
    list_edited, panel_fields, panel_shows, retitled, schedule_reads_back, toggle_enabled, toggled,
    EditForm, PanelFields,
};

verus! {

/// The reminders of the application, in the order the list shows them.
pub struct ReminderStore {
    reminders: Vec<Reminder>,
}

impl View for ReminderStore {
    type V = Seq<Reminder>;

    closed spec fn view(&self) -> Seq<Reminder> {
        self.reminders@
    }
}

/// The repeat interval of the add dialog's choice: 5, 15 or 30 minutes, one
/// hour or one day; 30 minutes for any other choice.
pub open spec fn interval_for_choice(idx: i32) -> RepeatInterval {
    if idx == 0 {
        RepeatInterval::Minutes(5)
    } else if idx == 1 {
        RepeatInterval::Minutes(15)
    } else if idx == 2 {
        RepeatInterval::Minutes(30)
    } else if idx == 3 {
        RepeatInterval::Hours(1)
    } else if idx == 4 {
        RepeatInterval::Days(1)
    } else {
        RepeatInterval::Minutes(30)
    }
}

pub fn interval_choice(idx: i32) -> (iv: RepeatInterval)
    ensures
        iv == interval_for_choice(idx),
{
    match idx {
        0 => RepeatInterval::Minutes(5),
        1 => RepeatInterval::Minutes(15),
        2 => RepeatInterval::Minutes(30),
        3 => RepeatInterval::Hours(1),
        4 => RepeatInterval::Days(1),
        _ => RepeatInterval::Minutes(30),
    }
}

/// `r` is a new reminder with the given title and content, recurring at
/// `iv` and first due one interval after `now`.
pub open spec fn scheduled_new(r: Reminder, title: Seq<char>, content: Seq<char>, iv: RepeatInterval, now: DateTime) -> bool {
    &&& r.title@ == title
    &&& r.content@ == content
    &&& r.enabled
    &&& !r.completed
    &&& r.repeat == Some(iv)
    &&& r.next_trigger matches Some(t) && shifted_by(now, iv.seconds(), t)
    &&& r.start_date is None
    &&& r.end_date is None
    &&& r.daily_start is None
    &&& r.daily_end is None
    &&& r.repeat_limit is None
    &&& r.trigger_count == 0
}

/// `new` is `old` with one reminder added at the end, as `add` makes it at
/// `now`.
pub open spec fn appended(
    old: Seq<Reminder>,
    new: Seq<Reminder>,
    title: Seq<char>,
    content: Seq<char>,
    idx: i32,
    now: DateTime,
) -> bool {
    &&& new.len() == old.len() + 1
    &&& new.take(old.len() as int) == old
    &&& scheduled_new(new.last(), title, content, interval_for_choice(idx), now)
}

/// Whether every reminder that fires at `now` can be rescheduled within the
/// calendar.
pub open spec fn tick_fits(rs: Seq<Reminder>, now: DateTime) -> bool {
    forall|i: int| 0 <= i < rs.len() && #[trigger] fires(rs[i], now) ==> schedulable(now, rs[i].repeat.unwrap())
}

/// `new` is `old` after a tick at `now` that fired the reminders `fired`:
/// exactly those that fire at `now`, in list order, each recorded as fired.
pub open spec fn ticked(old: Seq<Reminder>, new: Seq<Reminder>, fired: Seq<usize>, now: DateTime) -> bool {
    &&& new.len() == old.len()
    &&& forall|i: int| 0 <= i < old.len() ==> (if fires(old[i], now) {
        fired_at(old[i], #[trigger] new[i], now)
    } else {
        new[i] == old[i]
    })
    &&& forall|k: int| 0 <= k < fired.len() ==> #[trigger] fired[k] < old.len() && fires(old[fired[k] as int], now)
    &&& forall|k: int, l: int| 0 <= k < l < fired.len() ==> fired[k] < fired[l]
    &&& forall|i: int| 0 <= i < old.len() && #[trigger] fires(old[i], now) ==> fired.contains(i as usize)
}

impl ReminderStore {
    /// A store holding `reminders`.
    pub fn new(reminders: Vec<Reminder>) -> (s: ReminderStore)
        ensures
            s@ == reminders@,
    {
        ReminderStore { reminders }
    }

    /// The reminders, in order.
    pub fn reminders(&self) -> (r: &Vec<Reminder>)
        ensures
            r@ == self@,
    {
        &self.reminders
    }

    /// Adds a reminder with the interval of the add dialog's choice `idx`,
    /// first due one interval after `now`.
    pub fn add_at(&mut self, title: &str, content: &str, interval_idx: i32, now: &DateTime)
        requires
            now.valid(),
            schedulable(*now, interval_for_choice(interval_idx)),
        ensures
            appended(old(self)@, final(self)@, title@, content@, interval_idx, *now),
    {
        let interval = interval_choice(interval_idx);
        let next = next_trigger_time(&interval, now);
        let mut r = Reminder::new(title, content);
        r.repeat = Some(interval);
        r.next_trigger = Some(next);
        self.reminders.push(r);
        assert(self.reminders@.take(old(self)@.len() as int) =~= old(self)@);
    }

    /// Adds a reminder that is first due one interval after the current local
    /// time. Returns false, adding nothing, only when that time would lie
    /// outside the calendar.
    pub fn add(&mut self, title: &str, content: &str, interval_idx: i32) -> (added: bool)
        ensures
            added ==> exists|now: DateTime|
                now.valid() && #[trigger] appended(old(self)@, final(self)@, title@, content@, interval_idx, now),
            !added ==> final(self)@ == old(self)@,
            !added ==> exists|now: DateTime|
                now.valid() && !#[trigger] schedulable(now, interval_for_choice(interval_idx)),
    {
        let now = local_now();
        let interval = interval_choice(interval_idx);
        if !can_schedule(&interval, &now) {
            assert(now.valid() && !schedulable(now, interval_for_choice(interval_idx)));
            return false;
        }
        self.add_at(title, content, interval_idx, &now);
        assert(appended(old(self)@, self@, title@, content@, interval_idx, now));
        true
    }

    /// Removes the reminder at `index`.
    pub fn delete(&mut self, index: usize) -> (r: Result<(), String>)
        ensures
            index < old(self)@.len() ==> r is Ok && final(self)@ == old(self)@.remove(index as int),
            index >= old(self)@.len() ==> result_view(r) == Err::<(), Seq<char>>(
                index_error(index as nat, old(self)@.len()),
            ) && final(self)@ == old(self)@,
    {
        delete_reminder(&mut self.reminders, index)
    }

    /// Flips whether the reminder at `index` is enabled.
    pub fn toggle(&mut self, index: usize) -> (r: Result<(), String>)
        ensures
            index < old(self)@.len() ==> r is Ok && final(self)@ == toggled(old(self)@, index as int),
            index >= old(self)@.len() ==> result_view(r) == Err::<(), Seq<char>>(
                index_error(index as nat, old(self)@.len()),
            ) && final(self)@ == old(self)@,
    {
        toggle_enabled(&mut self.reminders, index)
    }

    /// Saves the edit panel into the reminder at `index`. The title and
    /// content are always set; the repeat rule, repeat limit, dates and daily
    /// window are set in turn until one does not read, whose error is returned.
    /// Saving the panel as `select` fills it keeps the reminder: where the
    /// texts are the ones the panel shows for it and its schedule reads back,
    /// the save succeeds and sets nothing but the title and content.
    pub fn apply_edit_data(
        &mut self,
        index: usize,
        title: &str,
        content: &str,
        repeat_type_idx: i32,
        repeat_amount_str: &str,
        start_date_str: &str,
        end_date_str: &str,
        daily_start_str: &str,
        daily_end_str: &str,
        repeat_limit_str: &str,
    ) -> (res: Result<(), String>)
        ensures
            index >= old(self)@.len() ==> result_view(res) == Err::<(), Seq<char>>(
                index_error(index as nat, old(self)@.len()),
            ) && final(self)@ == old(self)@,
            index < old(self)@.len() ==> {
                let f = EditForm {
                    repeat_type: repeat_type_idx,
                    amount: repeat_amount_str@,
                    limit: Some(repeat_limit_str@),
                    start_date: start_date_str@,
                    end_date: end_date_str@,
                    daily_start: daily_start_str@,
                    daily_end: daily_end_str@,
                };
                &&& list_edited(old(self)@, final(self)@, index as int, title@, content@, f)
                &&& result_view(res) == edit_result(old(self)@[index as int], f)
                &&& form_shows(f, old(self)@[index as int]) && schedule_reads_back(
                    old(self)@[index as int],
                ) ==> res is Ok && retitled(old(self)@[index as int], final(self)@[index as int])
            },
    {
        if index >= self.reminders.len() {
            return Err(index_error_message(index, self.reminders.len()));
        }
        let mut r = self.reminders.remove(index);
        let res = edit_reminder(
            &mut r,
            title,
            content,
            repeat_type_idx,
            repeat_amount_str,
            Some(repeat_limit_str),
            start_date_str,
            end_date_str,
            daily_start_str,
            daily_end_str,
        );
        self.reminders.insert(index, r);
        assert(self.reminders@ =~= old(self)@.update(index as int, r));
        res
    }

    /// The values that the edit panel shows for the reminder at `index`, or
    /// none where there is no such reminder.
    pub fn select(&self, index: usize) -> (p: Option<PanelFields>)
        requires
            index < self@.len() ==> self@[index as int].wf(),
        ensures
            index < self@.len() ==> (p matches Some(f) && panel_shows(f, self@[index as int])),
            index >= self@.len() ==> p is None,
    {
        if index < self.reminders.len() {
            Some(panel_fields(&self.reminders[index]))
        } else {
            None
        }
    }

    /// Fires, at `now`, every reminder that is due: records each as fired and
    /// returns their positions, in order, for the caller to notify.
    pub fn tick_at(&mut self, now: &DateTime) -> (fired: Vec<usize>)
        requires
            now.valid(),
            tick_fits(old(self)@, *now),
        ensures
            ticked(old(self)@, final(self)@, fired@, *now),
    {
        let mut fired: Vec<usize> = Vec::new();
        let n = self.reminders.len();
        let mut i: usize = 0;
        while i < n
            invariant
                now.valid(),
                tick_fits(old(self)@, *now),
                i <= n == self.reminders@.len() == old(self)@.len(),
                forall|j: int| i <= j < n ==> self.reminders@[j] == old(self)@[j],
                forall|j: int| 0 <= j < i ==> (if fires(old(self)@[j], *now) {
                    fired_at(old(self)@[j], #[trigger] self.reminders@[j], *now)
                } else {
                    self.reminders@[j] == old(self)@[j]
                }),
                forall|k: int| 0 <= k < fired@.len() ==> #[trigger] fired@[k] < i && fires(
                    old(self)@[fired@[k] as int],
                    *now,
                ),
                forall|k: int, l: int| 0 <= k < l < fired@.len() ==> fired@[k] < fired@[l],
                forall|j: int| 0 <= j < i && #[trigger] fires(old(self)@[j], *now) ==> fired@.contains(
                    j as usize,
                ),
            decreases n - i,
        {
            if should_trigger_recurring(&self.reminders[i], now) {
                let mut r = self.reminders.remove(i);
                assert(fires(old(self)@[i as int], *now));
                update_after_trigger(&mut r, now);
                self.reminders.insert(i, r);
                let ghost prev = fired@;
                fired.push(i);
                assert(fired@.last() == i);
                assert forall|j: int| 0 <= j < i + 1 && #[trigger] fires(old(self)@[j], *now) implies fired@.contains(
                    j as usize,
                ) by {
                    if j < i {
                        assert(prev.contains(j as usize));
                        let w = choose|w: int| 0 <= w < prev.len() && prev[w] == j as usize;
                        assert(fired@[w] == j as usize);
                    } else {
                        assert(fired@[fired@.len() - 1] == j as usize);
                    }
                }
            }
            i = i + 1;
        }
        fired
    }

    /// Fires every reminder that is due at the current local time, as
    /// `tick_at` does, and returns their positions. Returns none, changing
    /// nothing, only when a due reminder's next time would lie outside the
    /// calendar.
    pub fn tick(&mut self) -> (res: Option<Vec<usize>>)
        ensures
            res matches Some(v) ==> exists|now: DateTime|
                now.valid() && #[trigger] ticked(old(self)@, final(self)@, v@, now),
            res is None ==> final(self)@ == old(self)@,
            res is None ==> exists|now: DateTime, i: int|
                now.valid() && 0 <= i < old(self)@.len() && #[trigger] fires(old(self)@[i], now)
                    && !schedulable(now, old(self)@[i].repeat.unwrap()),
    {
        let now = local_now();
        let n = self.reminders.len();
        let mut i: usize = 0;
        while i < n
            invariant
                now.valid(),
                self.reminders@ == old(self)@,
                i <= n == self.reminders@.len(),
                forall|j: int| 0 <= j < i && #[trigger] fires(self.reminders@[j], now) ==> schedulable(
                    now,
                    self.reminders@[j].repeat.unwrap(),
                ),
            decreases n - i,
        {
            let r = &self.reminders[i];
            if should_trigger_recurring(r, &now) {
                let iv = r.repeat.unwrap();
                if !can_schedule(&iv, &now) {
                    assert(fires(old(self)@[i as int], now) && !schedulable(
                        now,
                        old(self)@[i as int].repeat.unwrap(),
                    ));
                    return None;
                }
            }
            i = i + 1;
        }
        let fired = self.tick_at(&now);
        let res = Some(fired);
        assert(res matches Some(v) && ticked(old(self)@, self@, v@, now));
        res
    }
}


/// Deleting the reminder that was just added gives the list back.
pub proof fn lemma_add_then_delete(
    old: Seq<Reminder>,
    mid: Seq<Reminder>,
    title: Seq<char>,
    content: Seq<char>,
    idx: i32,
    now: DateTime,
)
    requires
        appended(old, mid, title, content, idx, now),
    ensures
        mid.remove(old.len() as int) == old,
{
    assert(mid.remove(old.len() as int) =~= mid.take(old.len() as int));
}

/// A tick settles the list: where every recurring reminder has a positive
/// interval, nothing fires again at the same instant.
pub proof fn lemma_tick_settles(old: Seq<Reminder>, new: Seq<Reminder>, fired: Seq<usize>, now: DateTime)
    requires
        ticked(old, new, fired, now),
        forall|i: int| 0 <= i < old.len() ==> (#[trigger] old[i].repeat matches Some(iv) ==> iv.seconds() > 0),
    ensures
        forall|i: int| 0 <= i < new.len() ==> !fires(#[trigger] new[i], now),
{
    assert forall|i: int| 0 <= i < new.len() implies !fires(#[trigger] new[i], now) by {
        if fires(old[i], now) {
            assert(old[i].repeat matches Some(iv) ==> iv.seconds() > 0);
            lemma_fired_not_due(old[i], new[i], now);
        }
    }
}

/// The add dialog's choices 0 to 4 are 5, 15 and 30 minutes, one hour and
/// one day, and any other choice is 30 minutes: a reminder added with a
/// choice repeats at that interval and is first due that many seconds after
/// the time it was added.
pub proof fn law_add_choice_interval(
    old: Seq<Reminder>,
    new: Seq<Reminder>,
    title: Seq<char>,
    content: Seq<char>,
    idx: i32,
    now: DateTime,
)
    requires
        appended(old, new, title, content, idx, now),
    ensures
        idx == 0 ==> new.last().repeat == Some(RepeatInterval::Minutes(5)),
        idx == 1 ==> new.last().repeat == Some(RepeatInterval::Minutes(15)),
        idx == 2 ==> new.last().repeat == Some(RepeatInterval::Minutes(30)),
        idx == 3 ==> new.last().repeat == Some(RepeatInterval::Hours(1)),
        idx == 4 ==> new.last().repeat == Some(RepeatInterval::Days(1)),
        !(0 <= idx <= 4) ==> new.last().repeat == Some(RepeatInterval::Minutes(30)),
        new.last().next_trigger matches Some(t) && t.instant() == now.instant() + if idx == 0 {
            300int
        } else if idx == 1 {
            900
        } else if idx == 3 {
            3600
        } else if idx == 4 {
            86400
        } else {
            1800
        },
{
}

} // verus!
