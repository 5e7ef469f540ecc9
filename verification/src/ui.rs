//! What the user interface shows of reminders, and the edits it makes.
use vstd::prelude::*;
use vstd::string::*;
use crate::calendar::{
    date_text, format_hm, format_ymd, hour_minute_text, lemma_date_text_untrimmed,
    lemma_hour_minute_text_untrimmed, parse_date, parse_time, parsed_date, parsed_time, plain_year,
    start_of_minute, Date, Time,
};
use crate::reminder::{Reminder, RepeatInterval};
use crate::text::{
    all_digits, chars_to_string, decimal, decimal_chars, is_digit, lemma_decimal_digits,
    lemma_parse_decimal, message, parse_unsigned, parse_unsigned_chars, result_view, str_chars,
    trim, trim_chars,
};

verus! {

/// A reminder as the list shows it.
#[derive(Clone, Debug, PartialEq)]
pub struct ReminderItem {
    pub id: usize,
    pub title: String,
    pub content: String,
    pub enabled: bool,
    pub completed: bool,
    /// The repeat rule in words; none for a reminder that does not recur.
    pub next_trigger: Option<String>,
}

/// An optional string taken as characters.
pub open spec fn opt_string_view(s: Option<String>) -> Option<Seq<char>> {
    match s {
        Some(x) => Some(x@),
        None => None,
    }
}

/// The number that a repeat rule counts in its unit.
pub open spec fn interval_amount(iv: RepeatInterval) -> nat {
    match iv {
        RepeatInterval::Minutes(n) => n as nat,
        RepeatInterval::Hours(n) => n as nat,
        RepeatInterval::Days(n) => n as nat,
    }
}

/// A repeat rule in words: "every n minutes", "every n hours", "every n days".
pub open spec fn repeat_info(repeat: Option<RepeatInterval>) -> Option<Seq<char>> {
    match repeat {
        Some(RepeatInterval::Minutes(n)) => Some("每 "@ + decimal(n as nat) + " 分钟"@),
        Some(RepeatInterval::Hours(n)) => Some("每 "@ + decimal(n as nat) + " 小时"@),
        Some(RepeatInterval::Days(n)) => Some("每 "@ + decimal(n as nat) + " 天"@),
        None => None,
    }
}

/// `item` shows reminder `r` at position `i` of the list.
pub open spec fn shows(item: ReminderItem, i: int, r: Reminder) -> bool {
    &&& item.id == i
    &&& item.title@ == r.title@
    &&& item.content@ == r.content@
    &&& item.enabled == r.enabled
    &&& item.completed == r.completed
    &&& opt_string_view(item.next_trigger) == repeat_info(r.repeat)
}

/// Describes the repeat rule of `r` in words.
fn format_repeat_info(r: &Reminder) -> (s: Option<String>)
    ensures
        opt_string_view(s) == repeat_info(r.repeat),
{
    match r.repeat {
        Some(RepeatInterval::Minutes(n)) => Some(message("每 ", &decimal_chars(n as u64), " 分钟")),
        Some(RepeatInterval::Hours(n)) => Some(message("每 ", &decimal_chars(n as u64), " 小时")),
        Some(RepeatInterval::Days(n)) => Some(message("每 ", &decimal_chars(n as u64), " 天")),
        None => None,
    }
}

/// The list entries for `reminders`, in order, numbered from 0.
pub fn to_reminder_items(reminders: &[Reminder]) -> (items: Vec<ReminderItem>)
    ensures
        items.len() == reminders@.len(),
        forall|i: int| 0 <= i < items.len() ==> shows(#[trigger] items@[i], i, reminders@[i]),
{
    let mut items: Vec<ReminderItem> = Vec::new();
    let mut i: usize = 0;
    while i < reminders.len()
        invariant
            i <= reminders@.len(),
            items.len() == i,
            forall|j: int| 0 <= j < i ==> shows(#[trigger] items@[j], j, reminders@[j]),
        decreases reminders@.len() - i,
    {
        let r = &reminders[i];
        items.push(
            ReminderItem {
                id: i,
                title: r.title.clone(),
                content: r.content.clone(),
                enabled: r.enabled,
                completed: r.completed,
                next_trigger: format_repeat_info(r),
            },
        );
        i = i + 1;
    }
    items
}

/// The position of a repeat rule in the repeat-type choice: none, minutes,
/// hours, days.
pub open spec fn repeat_type_of(repeat: Option<RepeatInterval>) -> i32 {
    match repeat {
        None => 0,
        Some(RepeatInterval::Minutes(_)) => 1,
        Some(RepeatInterval::Hours(_)) => 2,
        Some(RepeatInterval::Days(_)) => 3,
    }
}

/// The position of the reminder's repeat rule in the repeat-type choice.
pub fn repeat_type_index(r: &Reminder) -> (k: i32)
    ensures
        k == repeat_type_of(r.repeat),
{
    match r.repeat {
        None => 0,
        Some(RepeatInterval::Minutes(_)) => 1,
        Some(RepeatInterval::Hours(_)) => 2,
        Some(RepeatInterval::Days(_)) => 3,
    }
}

/// The repeat amount as the edit panel shows it.
pub open spec fn repeat_amount_text(repeat: Option<RepeatInterval>) -> Seq<char> {
    match repeat {
        Some(iv) => decimal(interval_amount(iv)),
        None => Seq::empty(),
    }
}

/// The reminder's repeat amount in decimal; empty for a reminder that does
/// not recur.
pub fn repeat_amount(r: &Reminder) -> (s: String)
    ensures
        s@ == repeat_amount_text(r.repeat),
{
    match r.repeat {
        Some(RepeatInterval::Minutes(n)) => chars_to_string(decimal_chars(n as u64).as_slice()),
        Some(RepeatInterval::Hours(n)) => chars_to_string(decimal_chars(n as u64).as_slice()),
        Some(RepeatInterval::Days(n)) => chars_to_string(decimal_chars(n as u64).as_slice()),
        None => String::new(),
    }
}

/// A date as `%Y-%m-%d`, or the empty string.
pub fn format_date(d: Option<Date>) -> (s: String)
    requires
        d matches Some(x) ==> x.valid(),
    ensures
        s@ == match d {
            Some(x) => date_text(x),
            None => Seq::empty(),
        },
{
    match d {
        Some(x) => format_ymd(x),
        None => String::new(),
    }
}

/// A time of day as `%H:%M`, or the empty string.
pub fn format_time(t: Option<Time>) -> (s: String)
    requires
        t matches Some(x) ==> x.valid(),
    ensures
        s@ == match t {
            Some(x) => hour_minute_text(x),
            None => Seq::empty(),
        },
{
    match t {
        Some(x) => format_hm(x),
        None => String::new(),
    }
}

/// Appends a fresh reminder.
pub fn add_reminder(reminders: &mut Vec<Reminder>, title: &str, content: &str)
    ensures
        final(reminders)@.len() == old(reminders)@.len() + 1,
        final(reminders)@.take(old(reminders)@.len() as int) == old(reminders)@,
        final(reminders)@.last().is_fresh(title@, content@),
{
    reminders.push(Reminder::new(title, content));
    assert(reminders@.take(old(reminders)@.len() as int) =~= old(reminders)@);
}

/// The error for an index past the end of a list of `len` reminders.
pub open spec fn index_error(index: nat, len: nat) -> Seq<char> {
    "索引越界: "@ + decimal(index) + " (共 "@ + decimal(len) + " 条)"@
}

pub fn index_error_message(index: usize, len: usize) -> (s: String)
    ensures
        s@ == index_error(index as nat, len as nat),
{
    let mut s = String::from_str("索引越界: ");
    s.append(chars_to_string(decimal_chars(index as u64).as_slice()).as_str());
    s.append(" (共 ");
    s.append(chars_to_string(decimal_chars(len as u64).as_slice()).as_str());
    s.append(" 条)");
    s
}

/// Removes the reminder at `index`.
pub fn delete_reminder(reminders: &mut Vec<Reminder>, index: usize) -> (r: Result<(), String>)
    ensures
        index < old(reminders)@.len() ==> r is Ok && final(reminders)@ == old(reminders)@.remove(
            index as int,
        ),
        index >= old(reminders)@.len() ==> result_view(r) == Err::<(), Seq<char>>(
            index_error(index as nat, old(reminders)@.len()),
        ) && final(reminders)@ == old(reminders)@,
{
    if index >= reminders.len() {
        return Err(index_error_message(index, reminders.len()));
    }
    reminders.remove(index);
    Ok(())
}

/// The list with the reminder at `index` enabled if it was disabled and
/// disabled if it was enabled.
pub open spec fn toggled(rs: Seq<Reminder>, index: int) -> Seq<Reminder> {
    rs.update(index, Reminder { enabled: !rs[index].enabled, ..rs[index] })
}

/// Flips whether the reminder at `index` is enabled.
pub fn toggle_enabled(reminders: &mut Vec<Reminder>, index: usize) -> (r: Result<(), String>)
    ensures
        index < old(reminders)@.len() ==> r is Ok && final(reminders)@ == toggled(
            old(reminders)@,
            index as int,
        ),
        index >= old(reminders)@.len() ==> result_view(r) == Err::<(), Seq<char>>(
            index_error(index as nat, old(reminders)@.len()),
        ) && final(reminders)@ == old(reminders)@,
{
    if index >= reminders.len() {
        return Err(index_error_message(index, reminders.len()));
    }
    let mut r = reminders.remove(index);
    r.enabled = !r.enabled;
    reminders.insert(index, r);
    assert(reminders@ =~= toggled(old(reminders)@, index as int));
    Ok(())
}


/// The schedule fields of a reminder that the edit panel sets.
pub struct EditPlan {
    pub repeat: Option<RepeatInterval>,
    pub repeat_limit: Option<u32>,
    pub start_date: Option<Date>,
    pub end_date: Option<Date>,
    pub daily_start: Option<Time>,
    pub daily_end: Option<Time>,
}

/// The texts of the edit panel's schedule fields, and its repeat-type choice.
/// `limit` is absent where the panel has no repeat-limit field.
pub struct EditForm {
    pub repeat_type: i32,
    pub amount: Seq<char>,
    pub limit: Option<Seq<char>>,
    pub start_date: Seq<char>,
    pub end_date: Seq<char>,
    pub daily_start: Seq<char>,
    pub daily_end: Seq<char>,
}

pub open spec fn plan_of(r: Reminder) -> EditPlan {
    EditPlan {
        repeat: r.repeat,
        repeat_limit: r.repeat_limit,
        start_date: r.start_date,
        end_date: r.end_date,
        daily_start: r.daily_start,
        daily_end: r.daily_end,
    }
}

pub open spec fn opt_str_view(s: Option<&str>) -> Option<Seq<char>> {
    match s {
        Some(x) => Some(x@),
        None => None,
    }
}

/// The repeat rule that the repeat-type choice and the amount text give:
/// 1, 2 and 3 ask for a positive amount of minutes, hours or days; any other
/// choice means no repetition.
pub open spec fn repeat_step(t: i32, amount: Seq<char>) -> Result<Option<RepeatInterval>, Seq<char>> {
    if t == 1 || t == 2 || t == 3 {
        match parse_unsigned(trim(amount), u32::MAX as int) {
            None => Err("无效的间隔数值: '"@ + amount + "'"@),
            Some(n) => if n == 0 {
                Err("间隔数值不能为 0"@)
            } else if t == 1 {
                Ok(Some(RepeatInterval::Minutes(n as u32)))
            } else if t == 2 {
                Ok(Some(RepeatInterval::Hours(n as u32)))
            } else {
                Ok(Some(RepeatInterval::Days(n as u32)))
            },
        }
    } else {
        Ok(None)
    }
}

/// The repeat limit that a limit text gives: none for blank text.
pub open spec fn limit_step(s: Seq<char>) -> Result<Option<u32>, Seq<char>> {
    let t = trim(s);
    if t.len() == 0 {
        Ok(None)
    } else {
        match parse_unsigned(t, u32::MAX as int) {
            None => Err("无效的次数限制: '"@ + t + "'"@),
            Some(n) => Ok(Some(n as u32)),
        }
    }
}

/// The date that a date text gives: none for blank text.
pub open spec fn optional_date_spec(s: Seq<char>) -> Result<Option<Date>, Seq<char>> {
    let t = trim(s);
    if t.len() == 0 {
        Ok(None)
    } else {
        match parsed_date(t, "%Y-%m-%d"@) {
            Some(d) => Ok(Some(d)),
            None => Err("无效日期格式: '"@ + t + "'（应为 YYYY-MM-DD）"@),
        }
    }
}

/// The time of day that a time text gives: none for blank text.
pub open spec fn optional_time_spec(s: Seq<char>) -> Result<Option<Time>, Seq<char>> {
    let t = trim(s);
    if t.len() == 0 {
        Ok(None)
    } else {
        match parsed_time(t, "%H:%M"@) {
            Some(x) => Ok(Some(x)),
            None => Err("无效时间格式: '"@ + t + "'（应为 HH:MM）"@),
        }
    }
}

/// The schedule after an edit, field by field in the order repeat rule,
/// repeat limit, start date, end date, daily start, daily end. The first
/// field whose text does not read stops the edit: the fields before it keep
/// their new values, it and those after it their old ones, and its error is
/// returned.
pub open spec fn edit_outcome(old: EditPlan, f: EditForm) -> (EditPlan, Option<Seq<char>>) {
    match repeat_step(f.repeat_type, f.amount) {
        Err(m) => (old, Some(m)),
        Ok(rp) => {
            let p1 = EditPlan { repeat: rp, ..old };
            let lim = match f.limit {
                None => Ok(old.repeat_limit),
                Some(ls) => limit_step(ls),
            };
            match lim {
                Err(m) => (p1, Some(m)),
                Ok(l) => {
                    let p2 = EditPlan { repeat_limit: l, ..p1 };
                    match optional_date_spec(f.start_date) {
                        Err(m) => (p2, Some(m)),
                        Ok(sd) => {
                            let p3 = EditPlan { start_date: sd, ..p2 };
                            match optional_date_spec(f.end_date) {
                                Err(m) => (p3, Some(m)),
                                Ok(ed) => {
                                    let p4 = EditPlan { end_date: ed, ..p3 };
                                    match optional_time_spec(f.daily_start) {
                                        Err(m) => (p4, Some(m)),
                                        Ok(ds) => {
                                            let p5 = EditPlan { daily_start: ds, ..p4 };
                                            match optional_time_spec(f.daily_end) {
                                                Err(m) => (p5, Some(m)),
                                                Ok(de) => (EditPlan { daily_end: de, ..p5 }, None),
                                            }
                                        },
                                    }
                                },
                            }
                        },
                    }
                },
            }
        },
    }
}

/// `new` is `old` after an edit with the given title, content and form.
pub open spec fn edited(old: Reminder, new: Reminder, title: Seq<char>, content: Seq<char>, f: EditForm) -> bool {
    let p = edit_outcome(plan_of(old), f).0;
    &&& new.title@ == title
    &&& new.content@ == content
    &&& new == Reminder {
        title: new.title,
        content: new.content,
        repeat: p.repeat,
        repeat_limit: p.repeat_limit,
        start_date: p.start_date,
        end_date: p.end_date,
        daily_start: p.daily_start,
        daily_end: p.daily_end,
        ..old
    }
}

/// What an edit returns: its first error, if any.
pub open spec fn edit_result(old: Reminder, f: EditForm) -> Result<(), Seq<char>> {
    match edit_outcome(plan_of(old), f).1 {
        None => Ok(()),
        Some(m) => Err(m),
    }
}

/// Reads a repeat rule from the repeat-type choice and the amount text.
pub fn parse_repeat(t: i32, amount: &str) -> (r: Result<Option<RepeatInterval>, String>)
    ensures
        result_view(r) == repeat_step(t, amount@),
{
    if t == 1 || t == 2 || t == 3 {
        let chars = str_chars(amount);
        let trimmed = trim_chars(&chars);
        match parse_unsigned_chars(&trimmed, u32::MAX as u64) {
            None => Err(message("无效的间隔数值: '", &chars, "'")),
            Some(n) => if n == 0 {
                Err(String::from_str("间隔数值不能为 0"))
            } else if t == 1 {
                Ok(Some(RepeatInterval::Minutes(n as u32)))
            } else if t == 2 {
                Ok(Some(RepeatInterval::Hours(n as u32)))
            } else {
                Ok(Some(RepeatInterval::Days(n as u32)))
            },
        }
    } else {
        Ok(None)
    }
}

/// Reads a repeat limit: none for blank text.
pub fn parse_repeat_limit(s: &str) -> (r: Result<Option<u32>, String>)
    ensures
        result_view(r) == limit_step(s@),
{
    let chars = str_chars(s);
    let t = trim_chars(&chars);
    if t.len() == 0 {
        return Ok(None);
    }
    match parse_unsigned_chars(&t, u32::MAX as u64) {
        None => Err(message("无效的次数限制: '", &t, "'")),
        Some(n) => Ok(Some(n as u32)),
    }
}

/// Reads a `%Y-%m-%d` date: none for blank text. A date with a four-digit
/// year, as `format_date` writes it, reads back as itself.
pub fn parse_optional_date(s: &str) -> (r: Result<Option<Date>, String>)
    ensures
        result_view(r) == optional_date_spec(s@),
        r matches Ok(Some(d)) ==> d.valid(),
        forall|d: Date|
            #![trigger date_text(d)]
            d.valid() && plain_year(d) && trim(s@) == date_text(d) ==> r == Ok::<Option<Date>, String>(
                Some(d),
            ),
{
    let chars = str_chars(s);
    let t = trim_chars(&chars);
    if t.len() == 0 {
        return Ok(None);
    }
    let ts = chars_to_string(t.as_slice());
    match parse_date(ts.as_str(), "%Y-%m-%d") {
        Some(d) => Ok(Some(d)),
        None => Err(message("无效日期格式: '", &t, "'（应为 YYYY-MM-DD）")),
    }
}

/// Reads a `%H:%M` time of day: none for blank text. A time of day as
/// `format_time` writes it reads back as the start of its minute.
pub fn parse_optional_time(s: &str) -> (r: Result<Option<Time>, String>)
    ensures
        result_view(r) == optional_time_spec(s@),
        r matches Ok(Some(t)) ==> t.valid(),
        forall|t: Time|
            #![trigger hour_minute_text(t)]
            t.valid() && trim(s@) == hour_minute_text(t) ==> r == Ok::<Option<Time>, String>(
                Some(start_of_minute(t)),
            ),
{
    let chars = str_chars(s);
    let t = trim_chars(&chars);
    if t.len() == 0 {
        return Ok(None);
    }
    let ts = chars_to_string(t.as_slice());
    match parse_time(ts.as_str(), "%H:%M") {
        Some(x) => Ok(Some(x)),
        None => Err(message("无效时间格式: '", &t, "'（应为 HH:MM）")),
    }
}

/// Whether an optional date reads back from the text the edit panel shows
/// for it: none, or a valid date with a four-digit year.
pub open spec fn date_reads_back(d: Option<Date>) -> bool {
    d matches Some(x) ==> x.valid() && plain_year(x)
}

/// Whether an optional time of day reads back from the text the edit panel
/// shows for it: none, or a valid time at the start of a minute.
pub open spec fn time_reads_back(t: Option<Time>) -> bool {
    t matches Some(x) ==> x.valid() && x == start_of_minute(x)
}

/// Whether the schedule of `r` reads back from the edit panel: a positive
/// repeat amount, and dates and daily times that read back.
pub open spec fn schedule_reads_back(r: Reminder) -> bool {
    &&& (r.repeat matches Some(iv) ==> interval_amount(iv) > 0)
    &&& date_reads_back(r.start_date)
    &&& date_reads_back(r.end_date)
    &&& time_reads_back(r.daily_start)
    &&& time_reads_back(r.daily_end)
}

/// Whether the form `f` holds the texts that the edit panel shows for `r`.
pub open spec fn form_shows(f: EditForm, r: Reminder) -> bool {
    &&& f.repeat_type == repeat_type_of(r.repeat)
    &&& f.amount == repeat_amount_text(r.repeat)
    &&& (f.limit matches Some(l) ==> l == limit_text(r.repeat_limit))
    &&& f.start_date == opt_date_text(r.start_date)
    &&& f.end_date == opt_date_text(r.end_date)
    &&& f.daily_start == opt_time_text(r.daily_start)
    &&& f.daily_end == opt_time_text(r.daily_end)
}

/// `new` is `old` with only its title and content set.
pub open spec fn retitled(old: Reminder, new: Reminder) -> bool {
    new == Reminder { title: new.title, content: new.content, ..old }
}

proof fn lemma_optional_date_text(d: Option<Date>)
    requires
        date_reads_back(d),
    ensures
        d matches Some(x) ==> trim(opt_date_text(d)) == date_text(x),
        d is None ==> optional_date_spec(opt_date_text(d)) == Ok::<Option<Date>, Seq<char>>(None),
{
    if let Some(x) = d {
        lemma_date_text_untrimmed(x);
    } else {
        assert(trim(Seq::<char>::empty()) == Seq::<char>::empty());
    }
}

proof fn lemma_optional_time_text(t: Option<Time>)
    ensures
        t matches Some(x) ==> trim(opt_time_text(t)) == hour_minute_text(x),
        t is None ==> optional_time_spec(opt_time_text(t)) == Ok::<Option<Time>, Seq<char>>(None),
{
    if let Some(x) = t {
        lemma_hour_minute_text_untrimmed(x);
    } else {
        assert(trim(Seq::<char>::empty()) == Seq::<char>::empty());
    }
}

/// Sets the title and content of `r`, then its schedule from the form, field
/// by field, stopping at the first field that does not read. A form that
/// shows the schedule of `r`, where it reads back, leaves that schedule as it
/// was.
pub fn edit_reminder(
    r: &mut Reminder,
    title: &str,
    content: &str,
    repeat_type_idx: i32,
    repeat_amount_str: &str,
    repeat_limit_str: Option<&str>,
    start_date_str: &str,
    end_date_str: &str,
    daily_start_str: &str,
    daily_end_str: &str,
) -> (res: Result<(), String>)
    ensures
        edited(
            *old(r),
            *final(r),
            title@,
            content@,
            EditForm {
                repeat_type: repeat_type_idx,
                amount: repeat_amount_str@,
                limit: opt_str_view(repeat_limit_str),
                start_date: start_date_str@,
                end_date: end_date_str@,
                daily_start: daily_start_str@,
                daily_end: daily_end_str@,
            },
        ),
        result_view(res) == edit_result(
            *old(r),
            EditForm {
                repeat_type: repeat_type_idx,
                amount: repeat_amount_str@,
                limit: opt_str_view(repeat_limit_str),
                start_date: start_date_str@,
                end_date: end_date_str@,
                daily_start: daily_start_str@,
                daily_end: daily_end_str@,
            },
        ),
        form_shows(
            EditForm {
                repeat_type: repeat_type_idx,
                amount: repeat_amount_str@,
                limit: opt_str_view(repeat_limit_str),
                start_date: start_date_str@,
                end_date: end_date_str@,
                daily_start: daily_start_str@,
                daily_end: daily_end_str@,
            },
            *old(r),
        ) && schedule_reads_back(*old(r)) ==> res is Ok && retitled(*old(r), *final(r)),
{
    proof {
        let f = EditForm {
            repeat_type: repeat_type_idx,
            amount: repeat_amount_str@,
            limit: opt_str_view(repeat_limit_str),
            start_date: start_date_str@,
            end_date: end_date_str@,
            daily_start: daily_start_str@,
            daily_end: daily_end_str@,
        };
        if form_shows(f, *r) && schedule_reads_back(*r) {
            lemma_repeat_round_trip(r.repeat);
            lemma_limit_round_trip(r.repeat_limit);
            lemma_optional_date_text(r.start_date);
            lemma_optional_date_text(r.end_date);
            lemma_optional_time_text(r.daily_start);
            lemma_optional_time_text(r.daily_end);
        }
    }
    r.title = String::from_str(title);
    r.content = String::from_str(content);
    r.repeat = parse_repeat(repeat_type_idx, repeat_amount_str)?;
    if let Some(ls) = repeat_limit_str {
        r.repeat_limit = parse_repeat_limit(ls)?;
    }
    r.start_date = parse_optional_date(start_date_str)?;
    r.end_date = parse_optional_date(end_date_str)?;
    r.daily_start = parse_optional_time(daily_start_str)?;
    r.daily_end = parse_optional_time(daily_end_str)?;
    Ok(())
}


/// `new` is `old` with the reminder at `index` edited as `edited` says and
/// the others unchanged.
pub open spec fn list_edited(
    old: Seq<Reminder>,
    new: Seq<Reminder>,
    index: int,
    title: Seq<char>,
    content: Seq<char>,
    f: EditForm,
) -> bool {
    &&& new.len() == old.len()
    &&& forall|j: int| 0 <= j < old.len() && j != index ==> new[j] == old[j]
    &&& edited(old[index], new[index], title, content, f)
}

/// Saves the edit panel (without a repeat limit) into the reminder at `index`.
/// The title and content are always set; the schedule fields are set in turn
/// until one does not read, whose error is returned. Texts that show the
/// reminder's own schedule, where it reads back, save without error and
/// change nothing but the title and content.
pub fn save_reminder(
    reminders: &mut Vec<Reminder>,
    index: usize,
    title: &str,
    content: &str,
    repeat_type_idx: i32,
    repeat_amount_str: &str,
    start_date_str: &str,
    end_date_str: &str,
    daily_start_str: &str,
    daily_end_str: &str,
) -> (res: Result<(), String>)
    ensures
        index >= old(reminders)@.len() ==> result_view(res) == Err::<(), Seq<char>>(
            index_error(index as nat, old(reminders)@.len()),
        ) && final(reminders)@ == old(reminders)@,
        index < old(reminders)@.len() ==> {
            let f = EditForm {
                repeat_type: repeat_type_idx,
                amount: repeat_amount_str@,
                limit: None,
                start_date: start_date_str@,
                end_date: end_date_str@,
                daily_start: daily_start_str@,
                daily_end: daily_end_str@,
            };
            &&& list_edited(old(reminders)@, final(reminders)@, index as int, title@, content@, f)
            &&& result_view(res) == edit_result(old(reminders)@[index as int], f)
            &&& form_shows(f, old(reminders)@[index as int]) && schedule_reads_back(
                old(reminders)@[index as int],
            ) ==> res is Ok && retitled(old(reminders)@[index as int], final(reminders)@[index as int])
        },
{
    if index >= reminders.len() {
        return Err(index_error_message(index, reminders.len()));
    }
    let mut r = reminders.remove(index);
    let res = edit_reminder(
        &mut r,
        title,
        content,
        repeat_type_idx,
        repeat_amount_str,
        None,
        start_date_str,
        end_date_str,
        daily_start_str,
        daily_end_str,
    );
    reminders.insert(index, r);
    assert(reminders@ =~= old(reminders)@.update(index as int, r));
    res
}


/// Toggling the same reminder twice gives the list back unchanged.
pub proof fn lemma_toggle_twice(rs: Seq<Reminder>, index: int)
    requires
        0 <= index < rs.len(),
    ensures
        toggled(toggled(rs, index), index) == rs,
{
    assert(toggled(toggled(rs, index), index) =~= rs);
}

/// The values that the edit panel shows for a reminder.
pub struct PanelFields {
    pub title: String,
    pub content: String,
    pub repeat_type: i32,
    pub repeat_amount: String,
    pub start_date: String,
    pub end_date: String,
    pub daily_start: String,
    pub daily_end: String,
    pub repeat_limit: String,
}

/// The repeat limit as the edit panel shows it: empty where there is none.
pub open spec fn limit_text(limit: Option<u32>) -> Seq<char> {
    match limit {
        Some(n) => decimal(n as nat),
        None => Seq::empty(),
    }
}

pub open spec fn opt_date_text(d: Option<Date>) -> Seq<char> {
    match d {
        Some(x) => date_text(x),
        None => Seq::empty(),
    }
}

pub open spec fn opt_time_text(t: Option<Time>) -> Seq<char> {
    match t {
        Some(x) => hour_minute_text(x),
        None => Seq::empty(),
    }
}

/// `p` shows reminder `r` in the edit panel.
pub open spec fn panel_shows(p: PanelFields, r: Reminder) -> bool {
    &&& p.title@ == r.title@
    &&& p.content@ == r.content@
    &&& p.repeat_type == repeat_type_of(r.repeat)
    &&& p.repeat_amount@ == repeat_amount_text(r.repeat)
    &&& p.start_date@ == opt_date_text(r.start_date)
    &&& p.end_date@ == opt_date_text(r.end_date)
    &&& p.daily_start@ == opt_time_text(r.daily_start)
    &&& p.daily_end@ == opt_time_text(r.daily_end)
    &&& p.repeat_limit@ == limit_text(r.repeat_limit)
}

/// The values that the edit panel shows for `r`.
pub fn panel_fields(r: &Reminder) -> (p: PanelFields)
    requires
        r.wf(),
    ensures
        panel_shows(p, *r),
{
    let repeat_limit = match r.repeat_limit {
        Some(n) => chars_to_string(decimal_chars(n as u64).as_slice()),
        None => String::new(),
    };
    PanelFields {
        title: r.title.clone(),
        content: r.content.clone(),
        repeat_type: repeat_type_index(r),
        repeat_amount: repeat_amount(r),
        start_date: format_date(r.start_date),
        end_date: format_date(r.end_date),
        daily_start: format_time(r.daily_start),
        daily_end: format_time(r.daily_end),
        repeat_limit,
    }
}

proof fn lemma_digits_untrimmed(s: Seq<char>)
    requires
        s.len() > 0,
        all_digits(s),
    ensures
        trim(s) == s,
{
    assert(is_digit(s[0]));
    assert(is_digit(s[s.len() - 1]));
}

/// A positive repeat amount that the edit panel shows reads back as the same
/// repeat rule, and no repeat rule reads back as none.
pub proof fn lemma_repeat_round_trip(repeat: Option<RepeatInterval>)
    requires
        repeat matches Some(iv) ==> interval_amount(iv) > 0,
    ensures
        repeat_step(repeat_type_of(repeat), repeat_amount_text(repeat)) == Ok::<
            Option<RepeatInterval>,
            Seq<char>,
        >(repeat),
{
    if let Some(iv) = repeat {
        let n = interval_amount(iv);
        lemma_decimal_digits(n);
        lemma_digits_untrimmed(decimal(n));
        lemma_parse_decimal(n, u32::MAX as int);
    }
}

/// The repeat limit that the edit panel shows reads back as the same limit.
pub proof fn lemma_limit_round_trip(limit: Option<u32>)
    ensures
        limit_step(limit_text(limit)) == Ok::<Option<u32>, Seq<char>>(limit),
{
    if let Some(n) = limit {
        lemma_decimal_digits(n as nat);
        lemma_digits_untrimmed(decimal(n as nat));
        lemma_parse_decimal(n as nat, u32::MAX as int);
    } else {
        assert(trim(Seq::<char>::empty()) == Seq::<char>::empty());
    }
}


/// The edit form that saving the panel `p` unchanged submits.
pub open spec fn panel_form(p: PanelFields) -> EditForm {
    EditForm {
        repeat_type: p.repeat_type,
        amount: p.repeat_amount@,
        limit: Some(p.repeat_limit@),
        start_date: p.start_date@,
        end_date: p.end_date@,
        daily_start: p.daily_start@,
        daily_end: p.daily_end@,
    }
}

/// The panel that shows a reminder submits a form that shows it; saving it
/// unchanged keeps the reminder's repeat rule and repeat limit, where its
/// repeat amount is positive.
pub proof fn lemma_panel_round_trip(r: Reminder, p: PanelFields)
    requires
        panel_shows(p, r),
        r.repeat matches Some(iv) ==> interval_amount(iv) > 0,
    ensures
        form_shows(panel_form(p), r),
        edit_outcome(plan_of(r), panel_form(p)).0.repeat == r.repeat,
        edit_outcome(plan_of(r), panel_form(p)).0.repeat_limit == r.repeat_limit,
{
    lemma_repeat_round_trip(r.repeat);
    lemma_limit_round_trip(r.repeat_limit);
}

} // verus!
