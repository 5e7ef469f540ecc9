//! Reading times from text, and deciding when reminders fire.
use vstd::prelude::*;
use crate::calendar::{
    at_or_after, checked_add_seconds, in_calendar, in_calendar_exec, lemma_instant_bounds,
    local_now, parse_datetime, parsed_datetime, datetime_minute_text, datetime_text, plain_year,
    shifted_by, shifted_instant, start_of_minute, Date, DateTime, Time, MAX_DELTA_SECS,
};
use crate::reminder::{Reminder, RepeatInterval};
use crate::text::{
    chars_eq, chars_to_string, find_char, find_char_exec, find_char_from, find_non_digit,
    find_non_digit_from, has_prefix, is_digit, message, parse_unsigned, parse_unsigned_chars,
    result_view, starts_with, str_chars, sub_chars, trim, trim_chars, decimal,
    lemma_decimal_digits, lemma_find_char_at, lemma_find_non_digit_at, lemma_parse_decimal,
    lemma_untrimmed,
};

verus! {

/// A signed length of time in whole seconds, within chrono's duration range.
#[derive(Clone, Copy, Debug, PartialEq, Eq, Structural)]
pub struct Duration {
    secs: i64,
}

impl Duration {
    #[verifier::type_invariant]
    spec fn in_range(self) -> bool {
        -MAX_DELTA_SECS <= self.secs <= MAX_DELTA_SECS
    }

    /// The length in seconds.
    pub closed spec fn seconds(self) -> int {
        self.secs as int
    }

    pub fn num_seconds(&self) -> (r: i64)
        ensures
            r == self.seconds(),
            -MAX_DELTA_SECS <= r <= MAX_DELTA_SECS,
    {
        proof {
            use_type_invariant(self);
        }
        self.secs
    }

    /// `n` minutes.
    pub fn minutes(n: i64) -> (r: Duration)
        requires
            -MAX_DELTA_SECS <= n * 60 <= MAX_DELTA_SECS,
        ensures
            r.seconds() == n * 60,
    {
        Duration { secs: n * 60 }
    }

    /// `n` hours.
    pub fn hours(n: i64) -> (r: Duration)
        requires
            -MAX_DELTA_SECS <= n * 3600 <= MAX_DELTA_SECS,
        ensures
            r.seconds() == n * 3600,
    {
        Duration { secs: n * 3600 }
    }

    /// `n` days.
    pub fn days(n: i64) -> (r: Duration)
        requires
            -MAX_DELTA_SECS <= n * 86400 <= MAX_DELTA_SECS,
        ensures
            r.seconds() == n * 86400,
    {
        Duration { secs: n * 86400 }
    }
}

/// A scheduled reminder fires once the current time has reached its time.
pub fn should_trigger(scheduled_at: &DateTime, now: &DateTime) -> (r: bool)
    ensures
        r == at_or_after(*now, *scheduled_at),
{
    let n = now.instant_secs();
    let s = scheduled_at.instant_secs();
    n > s || (n == s && now.time.nanosecond >= scheduled_at.time.nanosecond)
}

/// The error for text that is no relative time.
pub open spec fn relative_error(t: Seq<char>) -> Seq<char> {
    "无法解析相对时间: '"@ + t + "'"@
}

/// The reading of a relative time such as `30分钟后` ("in 30 minutes"): the
/// number and the length of its unit in seconds, or the error message.
pub open spec fn relative_spec(input: Seq<char>) -> Result<(int, int), Seq<char>> {
    let t = trim(input);
    if !(t.len() > 0 && t.last() == '后') {
        Err(relative_error(t))
    } else {
        let rest = t.drop_last();
        match find_non_digit_from(rest, 0) {
            None => Err(relative_error(t)),
            Some(e) => {
                let num_str = rest.take(e);
                let unit = rest.skip(e);
                match parse_unsigned(num_str, i64::MAX as int) {
                    None => Err("无法解析数字: '"@ + num_str + "'"@),
                    Some(n) => if unit == "分钟"@ {
                        Ok((n, 60))
                    } else if unit == "小时"@ {
                        Ok((n, 3600))
                    } else if unit == "天"@ {
                        Ok((n, 86400))
                    } else {
                        Err("未知时间单位: '"@ + unit + "'"@)
                    },
                }
            },
        }
    }
}

/// Reads a relative time such as `30分钟后`, `2小时后` or `1天后` as a
/// duration from now.
pub fn parse_relative_time(input: &str) -> (r: Result<Duration, String>)
    requires
        relative_spec(input@) matches Ok((n, u)) ==> n * u <= MAX_DELTA_SECS,
    ensures
        match r {
            Ok(d) => relative_spec(input@) matches Ok((n, u)) && d.seconds() == n * u,
            Err(e) => relative_spec(input@) == Err::<(int, int), Seq<char>>(e@),
        },
{
    let all = str_chars(input);
    let t = trim_chars(&all);
    let n = t.len();
    if !(n > 0 && t[n - 1] == '后') {
        return Err(message("无法解析相对时间: '", &t, "'"));
    }
    let rest = sub_chars(&t, 0, n - 1);
    assert(rest@ =~= t@.drop_last());
    let e = match find_non_digit(&rest) {
        Some(e) => e,
        None => {
            return Err(message("无法解析相对时间: '", &t, "'"));
        },
    };
    proof {
        lemma_find_non_digit_from_bounds(rest@, 0);
    }
    let num_str = sub_chars(&rest, 0, e);
    let unit = sub_chars(&rest, e, rest.len());
    assert(num_str@ =~= rest@.take(e as int));
    assert(unit@ =~= rest@.skip(e as int));
    let num = match parse_unsigned_chars(&num_str, i64::MAX as u64) {
        Some(v) => v as i64,
        None => {
            return Err(message("无法解析数字: '", &num_str, "'"));
        },
    };
    if chars_eq(&unit, &str_chars("分钟")) {
        Ok(Duration::minutes(num))
    } else if chars_eq(&unit, &str_chars("小时")) {
        Ok(Duration::hours(num))
    } else if chars_eq(&unit, &str_chars("天")) {
        Ok(Duration::days(num))
    } else {
        Err(message("未知时间单位: '", &unit, "'"))
    }
}

/// The reading of a Chinese time of day such as `下午3点` ("3 in the
/// afternoon") or `上午10点半` ("half past 10 in the morning").
pub open spec fn chinese_time_spec(s: Seq<char>) -> Option<Time> {
    let pm = has_prefix(s, "下午"@);
    if !pm && !has_prefix(s, "上午"@) {
        None
    } else {
        let rest = if pm {
            s.skip("下午"@.len() as int)
        } else {
            s.skip("上午"@.len() as int)
        };
        match find_char(rest, '点') {
            None => None,
            Some(pos) => {
                let minute: int = if rest.skip(pos + 1) == "半"@ {
                    30
                } else {
                    0
                };
                match parse_unsigned(rest.take(pos), u32::MAX as int) {
                    None => None,
                    Some(h) => {
                        let hour = if pm && h < 12 {
                            h + 12
                        } else {
                            h
                        };
                        if hour < 24 {
                            Some(Time { hour: hour as u32, minute: minute as u32, second: 0, nanosecond: 0 })
                        } else {
                            None
                        }
                    },
                }
            },
        }
    }
}

/// Reads a Chinese time of day such as `下午3点` or `上午10点半`.
fn try_parse_chinese_time(s: &Vec<char>) -> (r: Option<Time>)
    ensures
        r == chinese_time_spec(s@),
        r matches Some(t) ==> t.valid(),
{
    let pm_prefix = str_chars("下午");
    let am_prefix = str_chars("上午");
    let pm = starts_with(s, &pm_prefix);
    if !pm && !starts_with(s, &am_prefix) {
        return None;
    }
    let skip = if pm {
        pm_prefix.len()
    } else {
        am_prefix.len()
    };
    let rest = sub_chars(s, skip, s.len());
    assert(rest@ =~= s@.skip(skip as int));
    let pos = match find_char_exec(&rest, '点') {
        Some(p) => p,
        None => {
            return None;
        },
    };
    assert(pos < rest.len()) by {
        lemma_find_char_from_bounds(rest@, '点', 0);
    }
    let minute_part = sub_chars(&rest, pos + 1, rest.len());
    let hour_str = sub_chars(&rest, 0, pos);
    assert(minute_part@ =~= rest@.skip(pos + 1));
    assert(hour_str@ =~= rest@.take(pos as int));
    let minute: u32 = if chars_eq(&minute_part, &str_chars("半")) {
        30
    } else {
        0
    };
    let h = match parse_unsigned_chars(&hour_str, u32::MAX as u64) {
        Some(v) => v as u32,
        None => {
            return None;
        },
    };
    let hour = if pm && h < 12 {
        h + 12
    } else {
        h
    };
    Time::from_hms_opt(hour, minute, 0)
}

pub proof fn lemma_find_char_from_bounds(s: Seq<char>, c: char, i: int)
    ensures
        find_char_from(s, c, i) matches Some(p) ==> i <= p < s.len() && s[p] == c,
    decreases s.len() - i,
{
    if 0 <= i < s.len() && s[i] != c {
        lemma_find_char_from_bounds(s, c, i + 1);
    }
}

pub proof fn lemma_find_non_digit_from_bounds(s: Seq<char>, i: int)
    ensures
        find_non_digit_from(s, i) matches Some(p) ==> i <= p < s.len() && !is_digit(s[p]) && (
        forall|j: int| i <= j < p ==> is_digit(#[trigger] s[j])),
    decreases s.len() - i,
{
    if 0 <= i < s.len() && is_digit(s[i]) {
        lemma_find_non_digit_from_bounds(s, i + 1);
    }
}

/// The reading of a local time: a full date and time, with or without
/// seconds, or a Chinese time of day on the day `today`.
pub open spec fn local_time_spec(input: Seq<char>, today: Date) -> Result<DateTime, Seq<char>> {
    let t = trim(input);
    match parsed_datetime(t, "%Y-%m-%d %H:%M:%S"@) {
        Some(x) => Ok(x),
        None => match parsed_datetime(t, "%Y-%m-%d %H:%M"@) {
            Some(x) => Ok(x),
            None => match chinese_time_spec(t) {
                Some(tm) => Ok(DateTime { date: today, time: tm }),
                None => Err("无法解析时间: '"@ + t + "'"@),
            },
        },
    }
}

/// Whether `r` is the date and time that `input` writes with a four-digit
/// year, where it does: with seconds, the time itself; without, the start of
/// its minute.
pub open spec fn reads_back(input: Seq<char>, r: Result<DateTime, String>) -> bool {
    &&& forall|x: DateTime|
        #![trigger datetime_text(x)]
        x.valid() && plain_year(x.date) && x.time.nanosecond == 0 && trim(input) == datetime_text(x)
            ==> r == Ok::<DateTime, String>(x)
    &&& forall|x: DateTime|
        #![trigger datetime_minute_text(x)]
        x.valid() && plain_year(x.date) && trim(input) == datetime_minute_text(x) ==> r == Ok::<
            DateTime,
            String,
        >(DateTime { date: x.date, time: start_of_minute(x.time) })
}

/// Reads a local time, taking a Chinese time of day as one on `today`.
pub fn parse_local_time_on(input: &str, today: Date) -> (r: Result<DateTime, String>)
    ensures
        result_view(r) == local_time_spec(input@, today),
        reads_back(input@, r),
{
    let all = str_chars(input);
    let t = trim_chars(&all);
    let ts = chars_to_string(t.as_slice());
    if let Some(x) = parse_datetime(ts.as_str(), "%Y-%m-%d %H:%M:%S") {
        return Ok(x);
    }
    if let Some(x) = parse_datetime(ts.as_str(), "%Y-%m-%d %H:%M") {
        return Ok(x);
    }
    if let Some(tm) = try_parse_chinese_time(&t) {
        return Ok(DateTime { date: today, time: tm });
    }
    Err(message("无法解析时间: '", &t, "'"))
}

/// Reads a local time: `%Y-%m-%d %H:%M:%S`, `%Y-%m-%d %H:%M`, or a Chinese
/// time of day on the current local date. A date and time written in either
/// form with a four-digit year reads back, whatever the clock says.
pub fn parse_local_time(input: &str) -> (r: Result<DateTime, String>)
    ensures
        exists|today: Date| today.valid() && result_view(r) == #[trigger] local_time_spec(input@, today),
        reads_back(input@, r),
{
    let now = local_now();
    let r = parse_local_time_on(input, now.date);
    assert(now.date.valid() && result_view(r) == local_time_spec(input@, now.date));
    r
}


/// Whether the time one `interval` after `now` lies within the calendar.
pub open spec fn schedulable(now: DateTime, interval: RepeatInterval) -> bool {
    in_calendar(shifted_instant(now, interval.seconds()))
}

pub fn can_schedule(interval: &RepeatInterval, now: &DateTime) -> (r: bool)
    requires
        now.valid(),
    ensures
        r == schedulable(*now, *interval),
{
    proof {
        lemma_instant_bounds(*now);
    }
    let secs = interval.num_seconds();
    if now.time.nanosecond >= 1_000_000_000 && secs < 0 {
        in_calendar_exec(now.instant_secs() + 1 + secs)
    } else {
        in_calendar_exec(now.instant_secs() + secs)
    }
}

/// The time one `interval` after `now`.
pub fn next_trigger_time(interval: &RepeatInterval, now: &DateTime) -> (r: DateTime)
    requires
        now.valid(),
        schedulable(*now, *interval),
    ensures
        shifted_by(*now, interval.seconds(), r),
{
    match checked_add_seconds(*now, interval.num_seconds()) {
        Some(x) => x,
        None => {
            proof {
                assert(false);
            }
            *now
        },
    }
}

/// Whether the date `d` lies within the reminder's date range.
pub open spec fn in_date_range(r: Reminder, d: Date) -> bool {
    &&& (r.start_date matches Some(s) ==> s.day_number() <= d.day_number())
    &&& (r.end_date matches Some(e) ==> d.day_number() <= e.day_number())
}

/// Whether the time of day `t` lies within the reminder's daily window.
pub open spec fn in_daily_window(r: Reminder, t: Time) -> bool {
    &&& (r.daily_start matches Some(a) ==> a.second_of_day() <= t.second_of_day())
    &&& (r.daily_end matches Some(b) ==> t.second_of_day() <= b.second_of_day())
}

/// Whether the reminder may still fire under its repeat limit.
pub open spec fn under_limit(r: Reminder) -> bool {
    r.repeat_limit matches Some(l) ==> r.trigger_count < l
}

/// Whether a recurring reminder fires at `now`: it is enabled, not completed,
/// its next time has come, `now` lies within its date range and daily window,
/// and its repeat limit is not reached.
pub open spec fn fires(r: Reminder, now: DateTime) -> bool {
    &&& r.enabled
    &&& !r.completed
    &&& r.repeat is Some
    &&& r.next_trigger matches Some(t) && at_or_after(now, t)
    &&& in_date_range(r, now.date)
    &&& in_daily_window(r, now.time)
    &&& under_limit(r)
}

/// Whether the recurring reminder `r` fires at `now`.
pub fn should_trigger_recurring(r: &Reminder, now: &DateTime) -> (b: bool)
    ensures
        b == fires(*r, *now),
{
    if !r.enabled || r.completed || r.repeat.is_none() {
        return false;
    }
    match r.next_trigger {
        Some(t) => {
            if !should_trigger(&t, now) {
                return false;
            }
        },
        None => {
            return false;
        },
    }
    let today = now.date.num_days_from_ce();
    if let Some(s) = r.start_date {
        if s.num_days_from_ce() > today {
            return false;
        }
    }
    if let Some(e) = r.end_date {
        if today > e.num_days_from_ce() {
            return false;
        }
    }
    let tod = now.time.num_seconds_from_midnight();
    if let Some(a) = r.daily_start {
        if a.num_seconds_from_midnight() > tod {
            return false;
        }
    }
    if let Some(b) = r.daily_end {
        if tod > b.num_seconds_from_midnight() {
            return false;
        }
    }
    match r.repeat_limit {
        Some(l) => r.trigger_count < l,
        None => true,
    }
}

/// The trigger count after one more firing.
pub open spec fn count_after(c: u32) -> u32 {
    if c < u32::MAX {
        (c + 1) as u32
    } else {
        c
    }
}

/// `new` is `old` after firing at `now`: the count grows by one, and a
/// recurring reminder is next due one interval after `now`.
pub open spec fn fired_at(old: Reminder, new: Reminder, now: DateTime) -> bool {
    &&& new == Reminder {
        trigger_count: count_after(old.trigger_count),
        next_trigger: new.next_trigger,
        ..old
    }
    &&& match old.repeat {
        Some(iv) => new.next_trigger matches Some(t) && shifted_by(now, iv.seconds(), t),
        None => new.next_trigger == old.next_trigger,
    }
}

/// Records that `r` fired at `now`.
pub fn update_after_trigger(r: &mut Reminder, now: &DateTime)
    requires
        now.valid(),
        old(r).repeat matches Some(iv) ==> schedulable(*now, iv),
    ensures
        fired_at(*old(r), *final(r), *now),
{
    if r.trigger_count < u32::MAX {
        r.trigger_count = r.trigger_count + 1;
    }
    if let Some(iv) = r.repeat {
        r.next_trigger = Some(next_trigger_time(&iv, now));
    }
}

/// The first instant at or after `now` that lies a whole number of `step`s
/// after `t`, or `t` itself where `t` is not before `now` or there is no step.
pub open spec fn advanced_instant(t: int, now: int, step: int) -> int {
    if t < now && step > 0 {
        t + ((now - t + step - 1) / step) * step
    } else {
        t
    }
}

/// Whether advancing moves the reminder's next time.
pub open spec fn advance_applies(r: Reminder, now: DateTime) -> bool {
    &&& r.repeat matches Some(iv) && iv.seconds() > 0
    &&& r.next_trigger matches Some(t) && t.instant() < now.instant()
}

/// Whether the advanced next time lies within the calendar.
pub open spec fn advance_fits(r: Reminder, now: DateTime) -> bool {
    advance_applies(r, now) ==> in_calendar(
        advanced_instant(r.next_trigger.unwrap().instant(), now.instant(), r.repeat.unwrap().seconds()),
    )
}

/// The advanced instant is the first one at or after `now` on the grid of
/// whole steps from `t`.
pub proof fn lemma_advanced_instant(t: int, now: int, step: int)
    requires
        t < now,
        step > 0,
    ensures
        advanced_instant(t, now, step) >= now,
        advanced_instant(t, now, step) - step < now,
        (advanced_instant(t, now, step) - t) % step == 0,
        advanced_instant(t, now, step) <= now + step - 1,
{
    let x = now - t + step - 1;
    let k = x / step;
    vstd::arithmetic::div_mod::lemma_fundamental_div_mod(x, step);
    vstd::arithmetic::div_mod::lemma_mod_pos_bound(x, step);
    vstd::arithmetic::div_mod::lemma_mod_multiples_basic(k, step);
    assert(k * step == step * k) by (nonlinear_arith);
}

pub fn can_advance(r: &Reminder, now: &DateTime) -> (b: bool)
    requires
        now.valid(),
        r.wf(),
    ensures
        b == advance_fits(*r, *now),
{
    match (r.repeat, r.next_trigger) {
        (Some(iv), Some(t)) => {
            let step = iv.num_seconds();
            proof {
                lemma_instant_bounds(*now);
                lemma_instant_bounds(t);
            }
            let n = now.instant_secs();
            let ts = t.instant_secs();
            if step <= 0 || ts >= n {
                return true;
            }
            proof {
                lemma_advanced_instant(ts as int, n as int, step as int);
            }
            let k = (n - ts + step - 1) / step;
            assert(k * step == ((n - ts + step - 1) as int / step as int) * step);
            in_calendar_exec(ts + k * step)
        },
        _ => true,
    }
}

/// `new` is `old` with its next time advanced as far as `now` asks: moved
/// forward by whole seconds to the advanced instant where advancing applies,
/// unchanged otherwise.
pub open spec fn advanced_from(old: Reminder, new: Reminder, now: DateTime) -> bool {
    if advance_applies(old, now) {
        let t = old.next_trigger.unwrap();
        let target = advanced_instant(t.instant(), now.instant(), old.repeat.unwrap().seconds());
        new.next_trigger matches Some(x) && shifted_by(t, target - t.instant(), x) && new
            == Reminder { next_trigger: Some(x), ..old }
    } else {
        new == old
    }
}

/// Moves a next time that has passed forward by whole intervals, to the first
/// such time at or after `now`.
pub fn advance_next_trigger(r: &mut Reminder, now: &DateTime)
    requires
        now.valid(),
        old(r).wf(),
        advance_fits(*old(r), *now),
    ensures
        advanced_from(*old(r), *final(r), *now),
{
    if let (Some(iv), Some(t)) = (r.repeat, r.next_trigger) {
        let step = iv.num_seconds();
        proof {
            lemma_instant_bounds(*now);
            lemma_instant_bounds(t);
        }
        let n = now.instant_secs();
        let ts = t.instant_secs();
        if step > 0 && ts < n {
            proof {
                lemma_advanced_instant(ts as int, n as int, step as int);
            }
            let k = (n - ts + step - 1) / step;
            assert(k * step == ((n - ts + step - 1) as int / step as int) * step);
            let delta = k * step;
            match checked_add_seconds(t, delta) {
                Some(x) => {
                    r.next_trigger = Some(x);
                },
                None => {
                    proof {
                        assert(false);
                    }
                },
            }
        }
    }
}


/// Once a scheduled time has come it stays come: a time that triggers at
/// `now` triggers at every later time too.
pub proof fn lemma_trigger_stays(scheduled_at: DateTime, now: DateTime, later: DateTime)
    requires
        at_or_after(now, scheduled_at),
        at_or_after(later, now),
    ensures
        at_or_after(later, scheduled_at),
{
}

/// Advances the next time of every reminder, as `advance_next_trigger` does.
pub fn advance_all_at(reminders: &mut Vec<Reminder>, now: &DateTime)
    requires
        now.valid(),
        forall|i: int|
            #![trigger old(reminders)@[i]]
            0 <= i < old(reminders)@.len() ==> old(reminders)@[i].wf() && advance_fits(
                old(reminders)@[i],
                *now,
            ),
    ensures
        final(reminders)@.len() == old(reminders)@.len(),
        forall|i: int| 0 <= i < old(reminders)@.len() ==> advanced_from(
            old(reminders)@[i],
            #[trigger] final(reminders)@[i],
            *now,
        ),
{
    let n = reminders.len();
    let mut i: usize = 0;
    while i < n
        invariant
            now.valid(),
            i <= n == reminders@.len() == old(reminders)@.len(),
            forall|j: int|
                #![trigger old(reminders)@[j]]
                0 <= j < n ==> old(reminders)@[j].wf() && advance_fits(old(reminders)@[j], *now),
            forall|j: int| i <= j < n ==> reminders@[j] == old(reminders)@[j],
            forall|j: int| 0 <= j < i ==> advanced_from(old(reminders)@[j], #[trigger] reminders@[j], *now),
        decreases n - i,
    {
        let mut r = reminders.remove(i);
        assert(r == old(reminders)@[i as int]);
        advance_next_trigger(&mut r, now);
        reminders.insert(i, r);
        i = i + 1;
    }
}

/// Brings every passed next time up to the current local time, as
/// `advance_all_at` does. Returns false, changing nothing, only when some
/// advanced time would lie outside the calendar.
pub fn advance_all(reminders: &mut Vec<Reminder>) -> (done: bool)
    requires
        forall|i: int| #![trigger old(reminders)@[i]] 0 <= i < old(reminders)@.len() ==> old(reminders)@[i].wf(),
    ensures
        done ==> exists|now: DateTime|
            now.valid() && forall|i: int| 0 <= i < old(reminders)@.len() ==> #[trigger] advanced_from(
                old(reminders)@[i],
                final(reminders)@[i],
                now,
            ),
        done ==> final(reminders)@.len() == old(reminders)@.len(),
        !done ==> final(reminders)@ == old(reminders)@,
        !done ==> exists|now: DateTime, i: int|
            now.valid() && 0 <= i < old(reminders)@.len() && !#[trigger] advance_fits(
                old(reminders)@[i],
                now,
            ),
{
    let now = local_now();
    let n = reminders.len();
    let mut i: usize = 0;
    while i < n
        invariant
            now.valid(),
            reminders@ == old(reminders)@,
            i <= n == reminders@.len(),
            forall|j: int| #![trigger reminders@[j]] 0 <= j < n ==> reminders@[j].wf(),
            forall|j: int| #![trigger reminders@[j]] 0 <= j < i ==> advance_fits(reminders@[j], now),
        decreases n - i,
    {
        if !can_advance(&reminders[i], &now) {
            assert(!advance_fits(old(reminders)@[i as int], now));
            return false;
        }
        i = i + 1;
    }
    advance_all_at(reminders, &now);
    assert(forall|i: int| 0 <= i < old(reminders)@.len() ==> #[trigger] advanced_from(
        old(reminders)@[i],
        reminders@[i],
        now,
    ));
    true
}

/// A recurring reminder with a positive interval that has just fired at
/// `now` does not fire again at `now`.
pub proof fn lemma_fired_not_due(old: Reminder, new: Reminder, now: DateTime)
    requires
        fired_at(old, new, now),
        old.repeat matches Some(iv) && iv.seconds() > 0,
    ensures
        !fires(new, now),
{
}

/// `n` followed by one of the units `分钟`, `小时` or `天` and by `后` reads
/// as `n` of that unit, that is `n` times 60, 3600 or 86400 seconds: the
/// duration that `parse_relative_time` returns grows with the number.
pub proof fn law_relative_time(n: nat, unit: Seq<char>, secs: int)
    requires
        n <= i64::MAX,
        (unit == "分钟"@ && secs == 60) || (unit == "小时"@ && secs == 3600) || (unit == "天"@ && secs
            == 86400),
    ensures
        relative_spec(decimal(n) + unit + "后"@) == Ok::<(int, int), Seq<char>>((n as int, secs)),
{
    reveal_strlit("分钟");
    reveal_strlit("小时");
    reveal_strlit("天");
    reveal_strlit("后");
    lemma_decimal_digits(n);
    lemma_parse_decimal(n, i64::MAX as int);
    let d = decimal(n);
    let s = d + unit + "后"@;
    assert(is_digit(d[0]));
    assert(s[0] == d[0]);
    assert(s.last() == '后');
    lemma_untrimmed(s);
    let rest = s.drop_last();
    assert(rest =~= d + unit);
    assert(rest[d.len() as int] == unit[0]);
    assert forall|j: int| 0 <= j < d.len() implies is_digit(rest[j]) by {
        assert(is_digit(d[j]));
    }
    lemma_find_non_digit_at(rest, 0, d.len() as int);
    assert(rest.take(d.len() as int) =~= d);
    assert(rest.skip(d.len() as int) =~= unit);
    if unit == "天"@ {
        assert(unit != "分钟"@ && unit != "小时"@) by {
            assert(unit.len() != "分钟"@.len());
        }
    } else if unit == "小时"@ {
        assert(unit != "分钟"@) by {
            assert(unit[0] != "分钟"@[0]);
        }
    }
}

/// The text `prefix h 点`, followed by `半` where `half`, with the hour `h`
/// written in decimal.
pub open spec fn chinese_text(prefix: Seq<char>, h: nat, half: bool) -> Seq<char> {
    prefix + decimal(h) + "点"@ + if half {
        "半"@
    } else {
        Seq::<char>::empty()
    }
}

proof fn lemma_chinese_rest(prefix: Seq<char>, h: nat, half: bool)
    requires
        h <= u32::MAX,
    ensures
        ({
            let rest = chinese_text(prefix, h, half).skip(prefix.len() as int);
            &&& find_char(rest, '点') == Some(decimal(h).len() as int)
            &&& rest.take(decimal(h).len() as int) == decimal(h)
            &&& (rest.skip(decimal(h).len() as int + 1) == "半"@ <==> half)
            &&& parse_unsigned(decimal(h), u32::MAX as int) == Some(h as int)
        }),
{
    reveal_strlit("点");
    reveal_strlit("半");
    lemma_decimal_digits(h);
    lemma_parse_decimal(h, u32::MAX as int);
    let d = decimal(h);
    let m = if half {
        "半"@
    } else {
        Seq::<char>::empty()
    };
    let rest = chinese_text(prefix, h, half).skip(prefix.len() as int);
    assert(rest =~= d + "点"@ + m);
    assert(rest[d.len() as int] == '点');
    assert forall|j: int| 0 <= j < d.len() implies rest[j] != '点' by {
        assert(is_digit(d[j]));
    }
    lemma_find_char_at(rest, '点', 0, d.len() as int);
    assert(rest.take(d.len() as int) =~= d);
    assert(rest.skip(d.len() as int + 1) =~= m);
    if !half {
        assert(m.len() != "半"@.len());
    }
}

/// `下午h点` reads as hour h + 12 for an hour below 12 and as hour h up to
/// 23; `上午h点` reads as hour h up to 23. Either is at minute 30 exactly
/// where `半` follows, and the afternoon shift does not depend on it.
pub proof fn law_chinese_time(h: nat, half: bool)
    requires
        h < 24,
    ensures
        chinese_time_spec(chinese_text("下午"@, h, half)) == Some(
            Time {
                hour: (if h < 12 {
                    h + 12
                } else {
                    h
                }) as u32,
                minute: if half {
                    30
                } else {
                    0
                },
                second: 0,
                nanosecond: 0,
            },
        ),
        chinese_time_spec(chinese_text("上午"@, h, half)) == Some(
            Time {
                hour: h as u32,
                minute: if half {
                    30
                } else {
                    0
                },
                second: 0,
                nanosecond: 0,
            },
        ),
{
    reveal_strlit("下午");
    reveal_strlit("上午");
    lemma_chinese_rest("下午"@, h, half);
    lemma_chinese_rest("上午"@, h, half);
    let pm = chinese_text("下午"@, h, half);
    let am = chinese_text("上午"@, h, half);
    assert(pm.take(2) =~= "下午"@);
    assert(am.take(2) =~= "上午"@);
    assert(am[0] == '上');
    assert(!has_prefix(am, "下午"@)) by {
        assert(am.take(2)[0] != "下午"@[0]);
    }
}

/// A recurring reminder that is enabled, not completed, due, within its date
/// range and within its daily window fires unless its repeat limit is
/// reached: with a limit `l` it fires exactly while it has fired fewer than
/// `l` times, and without a limit it fires.
pub proof fn law_limit_stops_firing_at_count(r: Reminder, now: DateTime)
    requires
        r.enabled,
        !r.completed,
        r.repeat is Some,
        r.next_trigger matches Some(t) && at_or_after(now, t),
        r.start_date matches Some(s) ==> s.day_number() <= now.date.day_number(),
        r.end_date matches Some(e) ==> now.date.day_number() <= e.day_number(),
        r.daily_start matches Some(a) ==> a.second_of_day() <= now.time.second_of_day(),
        r.daily_end matches Some(b) ==> now.time.second_of_day() <= b.second_of_day(),
    ensures
        r.repeat_limit is None ==> fires(r, now),
        r.repeat_limit matches Some(l) ==> (fires(r, now) <==> r.trigger_count < l),
{
}

/// A reminder fires only when it is enabled, not completed, recurring, due,
/// within its date range and daily window, and under its repeat limit.
pub proof fn law_fires_only_when_due(r: Reminder, now: DateTime)
    requires
        fires(r, now),
    ensures
        r.enabled,
        !r.completed,
        r.repeat is Some,
        r.next_trigger matches Some(t) && at_or_after(now, t),
        r.start_date matches Some(s) ==> s.day_number() <= now.date.day_number(),
        r.end_date matches Some(e) ==> now.date.day_number() <= e.day_number(),
        r.daily_start matches Some(a) ==> a.second_of_day() <= now.time.second_of_day(),
        r.daily_end matches Some(b) ==> now.time.second_of_day() <= b.second_of_day(),
        r.repeat_limit matches Some(l) ==> r.trigger_count < l,
{
}

/// Advancing at `now` moves a recurring reminder whose next time has passed
/// to a time at or after `now` and less than one interval after it, a whole
/// number of intervals after the old next time; nothing else changes.
pub proof fn law_advance_reaches_now(old: Reminder, new: Reminder, now: DateTime)
    requires
        advanced_from(old, new, now),
        old.repeat matches Some(iv) && iv.seconds() > 0,
        old.next_trigger matches Some(t) && t.instant() < now.instant(),
    ensures
        new.next_trigger matches Some(x) && x.valid() && now.instant() <= x.instant() < now.instant()
            + old.repeat.unwrap().seconds() && (x.instant() - old.next_trigger.unwrap().instant())
            % old.repeat.unwrap().seconds() == 0,
        new == (Reminder { next_trigger: new.next_trigger, ..old }),
{
    lemma_advanced_instant(
        old.next_trigger.unwrap().instant(),
        now.instant(),
        old.repeat.unwrap().seconds(),
    );
}

/// Advancing leaves a reminder whose next time has not passed unchanged, and
/// one that does not recur.
pub proof fn law_advance_keeps_upcoming(old: Reminder, new: Reminder, now: DateTime)
    requires
        advanced_from(old, new, now),
        (old.next_trigger matches Some(t) && t.instant() >= now.instant()) || old.repeat is None
            || old.next_trigger is None,
    ensures
        new == old,
{
}

/// Firing counts one more firing, up to the largest count, changes nothing
/// but the count and the next time, and a recurring reminder is next due one
/// interval after the firing.
pub proof fn law_firing_counts_and_reschedules(old: Reminder, new: Reminder, now: DateTime)
    requires
        now.valid(),
        fired_at(old, new, now),
    ensures
        old.trigger_count < u32::MAX ==> new.trigger_count == old.trigger_count + 1,
        old.trigger_count == u32::MAX ==> new.trigger_count == u32::MAX,
        new == (Reminder { trigger_count: new.trigger_count, next_trigger: new.next_trigger, ..old }),
        old.repeat matches Some(iv) ==> new.next_trigger matches Some(t) && t.instant()
            == now.instant() + iv.seconds(),
        old.repeat is None ==> new.next_trigger == old.next_trigger,
{
}

} // verus!
