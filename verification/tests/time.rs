use due::calendar::{Date, DateTime, Time};
use due::reminder::{Reminder, RepeatInterval};
use due::time::{
    advance_all, advance_all_at, advance_next_trigger, can_advance, next_trigger_time, parse_local_time, parse_local_time_on,
    parse_relative_time, should_trigger, should_trigger_recurring, update_after_trigger, Duration,
};

fn at(y: i32, mo: u32, d: u32, h: u32, mi: u32) -> DateTime {
    DateTime {
        date: Date::from_ymd_opt(y, mo, d).unwrap(),
        time: Time::from_hms_opt(h, mi, 0).unwrap(),
    }
}

#[test]
fn parse_standard_local_time() {
    let result = parse_local_time("2026-06-03 15:00").unwrap();

    assert_eq!(result.date.year, 2026);
    assert_eq!(result.date.month, 6);
    assert_eq!(result.date.day, 3);
    assert_eq!(result.time.hour, 15);
    assert_eq!(result.time.minute, 0);
}

#[test]
fn parse_local_time_with_seconds() {
    let result = parse_local_time("2026-06-03 15:00:30").unwrap();

    assert_eq!(result.time.hour, 15);
    assert_eq!(result.time.minute, 0);
    assert_eq!(result.time.second, 30);
}

#[test]
fn parse_chinese_time_afternoon() {
    let result = parse_local_time("下午3点").unwrap();

    assert_eq!(result.time.hour, 15);
    assert_eq!(result.time.minute, 0);
}

#[test]
fn parse_chinese_time_morning_with_half() {
    let result = parse_local_time("上午10点半").unwrap();

    assert_eq!(result.time.hour, 10);
    assert_eq!(result.time.minute, 30);
}

#[test]
fn parse_local_time_on_given_day() {
    let today = Date::from_ymd_opt(2026, 6, 3).unwrap();

    assert_eq!(parse_local_time_on("  下午12点半 ", today), Ok(at(2026, 6, 3, 12, 30)));
    assert_eq!(parse_local_time_on("下午11点", today), Ok(at(2026, 6, 3, 23, 0)));
    assert_eq!(parse_local_time_on("上午0点", today), Ok(at(2026, 6, 3, 0, 0)));
    assert_eq!(parse_local_time_on("上午7点一刻", today), Ok(at(2026, 6, 3, 7, 0)));
    assert_eq!(parse_local_time_on(" 2026-06-03 15:00 ", today), Ok(at(2026, 6, 3, 15, 0)));
}

#[test]
fn parse_local_time_errors() {
    let today = Date::from_ymd_opt(2026, 6, 3).unwrap();

    assert_eq!(parse_local_time_on(" 明天 ", today), Err("无法解析时间: '明天'".to_string()));
    assert!(parse_local_time_on("上午24点", today).is_err());
    assert_eq!(parse_local_time_on("下午13点", today), Ok(at(2026, 6, 3, 13, 0)));
    assert!(parse_local_time_on("下午24点", today).is_err());
    assert!(parse_local_time_on("下午点", today).is_err());
    assert!(parse_local_time_on("下午3", today).is_err());
    assert!(parse_local_time_on("2026-02-30 10:00", today).is_err());
}

#[test]
fn parse_relative_time_minutes() {
    let duration = parse_relative_time("30分钟后").unwrap();

    assert_eq!(duration, Duration::minutes(30));
}

#[test]
fn parse_relative_time_hours() {
    let duration = parse_relative_time("2小时后").unwrap();

    assert_eq!(duration, Duration::hours(2));
}

#[test]
fn parse_relative_time_days() {
    let duration = parse_relative_time("1天后").unwrap();

    assert_eq!(duration, Duration::days(1));
}

#[test]
fn parse_relative_time_seconds_and_errors() {
    assert_eq!(parse_relative_time(" 90分钟后 ").unwrap().num_seconds(), 5400);
    assert_eq!(parse_relative_time("30分钟"), Err("无法解析相对时间: '30分钟'".to_string()));
    assert_eq!(parse_relative_time("30后"), Err("无法解析相对时间: '30后'".to_string()));
    assert_eq!(parse_relative_time("分钟后"), Err("无法解析数字: ''".to_string()));
    assert_eq!(
        parse_relative_time("99999999999999999999分钟后"),
        Err("无法解析数字: '99999999999999999999'".to_string())
    );
    assert_eq!(parse_relative_time("3周后"), Err("未知时间单位: '周'".to_string()));
}

#[test]
fn trigger_when_time_has_passed() {
    let scheduled = at(2026, 6, 3, 15, 0);
    let now = at(2026, 6, 3, 15, 1);

    assert!(should_trigger(&scheduled, &now));
}

#[test]
fn no_trigger_when_time_has_not_passed() {
    let scheduled = at(2026, 6, 3, 15, 0);
    let now = at(2026, 6, 3, 14, 59);

    assert!(!should_trigger(&scheduled, &now));
}

#[test]
fn trigger_at_the_exact_time_and_across_years() {
    assert!(should_trigger(&at(2026, 6, 3, 15, 0), &at(2026, 6, 3, 15, 0)));
    assert!(should_trigger(&at(2025, 12, 31, 23, 59), &at(2026, 1, 1, 0, 0)));
    assert!(!should_trigger(&at(2026, 1, 1, 0, 0), &at(2025, 12, 31, 23, 59)));
}

#[test]
fn next_trigger_time_adds_the_interval() {
    let now = at(2026, 2, 28, 22, 0);

    assert_eq!(next_trigger_time(&RepeatInterval::Hours(3), &now), at(2026, 3, 1, 1, 0));
    assert_eq!(next_trigger_time(&RepeatInterval::Days(365), &now), at(2027, 2, 28, 22, 0));
    assert_eq!(next_trigger_time(&RepeatInterval::Minutes(0), &now), now);
}

#[test]
fn recurring_reminder_window_and_range() {
    let mut r = Reminder::new("喝水", "").with_repeat(RepeatInterval::Hours(1));
    r.next_trigger = Some(at(2026, 6, 3, 9, 0));
    r.start_date = Date::from_ymd_opt(2026, 6, 1);
    r.end_date = Date::from_ymd_opt(2026, 6, 30);
    r.daily_start = Time::from_hms_opt(9, 0, 0);
    r.daily_end = Time::from_hms_opt(18, 0, 0);

    assert!(should_trigger_recurring(&r, &at(2026, 6, 3, 9, 0)));
    assert!(should_trigger_recurring(&r, &at(2026, 6, 30, 18, 0)));
    assert!(!should_trigger_recurring(&r, &at(2026, 6, 3, 8, 59)));
    assert!(!should_trigger_recurring(&r, &at(2026, 6, 3, 18, 1)));
    assert!(!should_trigger_recurring(&r, &at(2026, 7, 1, 10, 0)));

    let mut one_time = r.clone();
    one_time.repeat = None;
    assert!(!should_trigger_recurring(&one_time, &at(2026, 6, 3, 10, 0)));

    let mut done = r.clone();
    done.completed = true;
    assert!(!should_trigger_recurring(&done, &at(2026, 6, 3, 10, 0)));
}

#[test]
fn update_after_trigger_counts_and_reschedules() {
    let mut r = Reminder::new("喝水", "").with_repeat(RepeatInterval::Minutes(20));
    r.next_trigger = Some(at(2026, 6, 3, 9, 0));
    r.repeat_limit = Some(1);
    let now = at(2026, 6, 3, 9, 5);

    update_after_trigger(&mut r, &now);

    assert_eq!(r.trigger_count, 1);
    assert_eq!(r.next_trigger, Some(at(2026, 6, 3, 9, 25)));
    assert!(!should_trigger_recurring(&r, &at(2026, 6, 3, 9, 30)));
}

#[test]
fn advance_moves_missed_trigger_to_first_future_slot() {
    let mut r = Reminder::new("喝水", "").with_repeat(RepeatInterval::Hours(1));
    r.next_trigger = Some(at(2026, 6, 1, 8, 0));
    let now = at(2026, 6, 3, 10, 30);

    assert!(can_advance(&r, &now));
    advance_next_trigger(&mut r, &now);

    assert_eq!(r.next_trigger, Some(at(2026, 6, 3, 11, 0)));
}

#[test]
fn advance_keeps_exact_and_future_triggers() {
    let now = at(2026, 6, 3, 10, 0);
    let mut on_grid = Reminder::new("a", "").with_repeat(RepeatInterval::Minutes(30));
    on_grid.next_trigger = Some(at(2026, 6, 3, 8, 0));
    advance_next_trigger(&mut on_grid, &now);
    assert_eq!(on_grid.next_trigger, Some(now));

    let mut future = Reminder::new("b", "").with_repeat(RepeatInterval::Days(1));
    future.next_trigger = Some(at(2026, 6, 5, 8, 0));
    advance_next_trigger(&mut future, &now);
    assert_eq!(future.next_trigger, Some(at(2026, 6, 5, 8, 0)));

    let mut zero = Reminder::new("c", "").with_repeat(RepeatInterval::Minutes(0));
    zero.next_trigger = Some(at(2020, 1, 1, 0, 0));
    advance_next_trigger(&mut zero, &now);
    assert_eq!(zero.next_trigger, Some(at(2020, 1, 1, 0, 0)));
}

#[test]
fn advance_all_at_advances_each_reminder() {
    let now = at(2026, 6, 3, 10, 30);
    let mut missed = Reminder::new("a", "").with_repeat(RepeatInterval::Minutes(45));
    missed.next_trigger = Some(at(2026, 6, 3, 8, 0));
    let one_time = Reminder::new("b", "");
    let mut reminders = vec![missed, one_time];

    advance_all_at(&mut reminders, &now);

    assert_eq!(reminders[0].next_trigger, Some(at(2026, 6, 3, 11, 0)));
    assert_eq!(reminders[1].next_trigger, None);
}

#[test]
fn advance_all_reaches_the_present() {
    let mut missed = Reminder::new("a", "").with_repeat(RepeatInterval::Days(1));
    missed.next_trigger = Some(at(2000, 1, 1, 8, 0));
    let mut reminders = vec![missed];

    assert!(advance_all(&mut reminders));

    let next = reminders[0].next_trigger.unwrap();
    assert!(next.date.year >= 2025);
    assert_eq!(next.time, Time::from_hms_opt(8, 0, 0).unwrap());
}

fn precise(y: i32, mo: u32, d: u32, h: u32, mi: u32, s: u32, nano: u32) -> DateTime {
    DateTime {
        date: Date::from_ymd_opt(y, mo, d).unwrap(),
        time: Time { hour: h, minute: mi, second: s, nanosecond: nano },
    }
}

#[test]
fn sub_second_part_decides_trigger() {
    let scheduled = precise(2026, 6, 3, 15, 0, 0, 500_000_000);
    assert!(!should_trigger(&scheduled, &precise(2026, 6, 3, 15, 0, 0, 200_000_000)));
    assert!(should_trigger(&scheduled, &precise(2026, 6, 3, 15, 0, 0, 500_000_000)));
    assert!(should_trigger(&scheduled, &precise(2026, 6, 3, 15, 0, 1, 0)));
}

#[test]
fn next_trigger_keeps_nanoseconds() {
    let now = precise(2026, 6, 3, 23, 58, 0, 123_456_789);
    let next = next_trigger_time(&RepeatInterval::Minutes(5), &now);
    assert_eq!(next, precise(2026, 6, 4, 0, 3, 0, 123_456_789));
}

#[test]
fn leap_second_moves_out_as_chrono_does() {
    let leap = precise(2016, 12, 31, 23, 59, 59, 1_300_000_000);
    let next = next_trigger_time(&RepeatInterval::Minutes(1), &leap);
    assert_eq!(next, precise(2017, 1, 1, 0, 0, 59, 300_000_000));
}

#[test]
fn advance_keeps_nanoseconds_of_the_schedule() {
    let mut r = Reminder::new("a", "b");
    r.repeat = Some(RepeatInterval::Minutes(30));
    r.next_trigger = Some(precise(2026, 6, 3, 8, 0, 0, 250_000_000));
    advance_next_trigger(&mut r, &precise(2026, 6, 3, 9, 10, 0, 0));
    assert_eq!(r.next_trigger, Some(precise(2026, 6, 3, 9, 30, 0, 250_000_000)));
}

#[test]
fn parse_local_time_reads_back_written_text() {
    let dt = precise(2026, 6, 3, 15, 0, 30, 0);
    assert_eq!(parse_local_time("2026-06-03 15:00:30"), Ok(dt));
    assert_eq!(parse_local_time("  2026-06-03 15:00:30\t"), Ok(dt));
    assert_eq!(parse_local_time("0999-01-09 07:05"), Ok(precise(999, 1, 9, 7, 5, 0, 0)));
    let today = Date::from_ymd_opt(2000, 1, 1).unwrap();
    assert_eq!(parse_local_time_on("2026-06-03 15:00", today), Ok(precise(2026, 6, 3, 15, 0, 0, 0)));
}
