use due::calendar::{Date, Time};
use due::reminder::{Reminder, RepeatInterval};
use due::ui::{
    add_reminder, delete_reminder, format_date, format_time, panel_fields, parse_optional_date,
    parse_optional_time, repeat_amount, repeat_type_index, save_reminder, to_reminder_items,
    toggle_enabled,
};

#[test]
fn to_reminder_items_converts_list() {
    let reminders = vec![
        Reminder::new("喝水", "每小时喝一杯水"),
        Reminder::new("站立", "久坐后站起来活动"),
    ];

    let items = to_reminder_items(&reminders);

    assert_eq!(items.len(), 2);
    assert_eq!(items[0].title, "喝水");
    assert_eq!(items[1].title, "站立");
    assert_eq!(items[0].id, 0);
    assert_eq!(items[1].id, 1);
}

#[test]
fn to_reminder_items_shows_repeat_info() {
    let reminder = Reminder::new("喝水", "每小时喝一杯水").with_repeat(RepeatInterval::Hours(2));

    let items = to_reminder_items(&[reminder]);

    assert_eq!(items[0].next_trigger, Some("每 2 小时".to_string()));
}

#[test]
fn to_reminder_items_repeat_info_for_each_unit() {
    let reminders = vec![
        Reminder::new("a", "").with_repeat(RepeatInterval::Minutes(45)),
        Reminder::new("b", "").with_repeat(RepeatInterval::Days(10)),
        Reminder::new("c", ""),
    ];

    let items = to_reminder_items(&reminders);

    assert_eq!(items[0].next_trigger, Some("每 45 分钟".to_string()));
    assert_eq!(items[1].next_trigger, Some("每 10 天".to_string()));
    assert_eq!(items[2].next_trigger, None);
    assert!(items[2].enabled);
    assert!(!items[2].completed);
}

#[test]
fn add_reminder_appends_to_list() {
    let mut reminders = vec![Reminder::new("喝水", "每小时喝一杯水")];

    add_reminder(&mut reminders, "站立", "久坐后站起来活动");

    assert_eq!(reminders.len(), 2);
    assert_eq!(reminders[1].title, "站立");
}

#[test]
fn delete_reminder_removes_item() {
    let mut reminders = vec![
        Reminder::new("喝水", "每小时喝一杯水"),
        Reminder::new("站立", "久坐后站起来活动"),
    ];

    delete_reminder(&mut reminders, 0).unwrap();

    assert_eq!(reminders.len(), 1);
    assert_eq!(reminders[0].title, "站立");
}

#[test]
fn delete_reminder_out_of_bounds_returns_error() {
    let mut reminders = vec![Reminder::new("喝水", "每小时喝一杯水")];

    let result = delete_reminder(&mut reminders, 5);

    assert!(result.is_err());
    assert_eq!(reminders.len(), 1);
}

#[test]
fn out_of_bounds_message_names_index_and_length() {
    let mut reminders = vec![Reminder::new("喝水", "")];

    assert_eq!(delete_reminder(&mut reminders, 5), Err("索引越界: 5 (共 1 条)".to_string()));
    assert_eq!(toggle_enabled(&mut reminders, 12), Err("索引越界: 12 (共 1 条)".to_string()));
}

#[test]
fn toggle_enabled_flips_state() {
    let mut reminders = vec![Reminder::new("喝水", "每小时喝一杯水")];

    toggle_enabled(&mut reminders, 0).unwrap();
    assert!(!reminders[0].enabled);

    toggle_enabled(&mut reminders, 0).unwrap();
    assert!(reminders[0].enabled);
}

#[test]
fn toggle_enabled_out_of_bounds_returns_error() {
    let mut reminders = vec![Reminder::new("喝水", "每小时喝一杯水")];

    let result = toggle_enabled(&mut reminders, 5);

    assert!(result.is_err());
}

#[test]
fn save_reminder_updates_all_fields() {
    let mut reminders = vec![Reminder::new("喝水", "旧内容")];

    save_reminder(
        &mut reminders,
        0,
        "新标题",
        "新内容",
        2,
        "3",
        "2026-06-01",
        "2026-12-31",
        "09:00",
        "18:00",
    )
    .unwrap();

    let r = &reminders[0];
    assert_eq!(r.title, "新标题");
    assert_eq!(r.content, "新内容");
    assert_eq!(r.repeat, Some(RepeatInterval::Hours(3)));
    assert_eq!(r.start_date, Some(Date::from_ymd_opt(2026, 6, 1).unwrap()));
    assert_eq!(r.end_date, Some(Date::from_ymd_opt(2026, 12, 31).unwrap()));
    assert_eq!(r.daily_start, Some(Time::from_hms_opt(9, 0, 0).unwrap()));
    assert_eq!(r.daily_end, Some(Time::from_hms_opt(18, 0, 0).unwrap()));
}

#[test]
fn save_reminder_clears_repeat_when_type_is_none() {
    let mut reminders = vec![Reminder::new("喝水", "每小时喝一杯水").with_repeat(RepeatInterval::Hours(1))];

    save_reminder(&mut reminders, 0, "喝水", "", 0, "", "", "", "", "").unwrap();

    assert_eq!(reminders[0].repeat, None);
}

#[test]
fn save_reminder_invalid_index_returns_error() {
    let mut reminders = vec![Reminder::new("喝水", "")];

    let result = save_reminder(&mut reminders, 5, "x", "", 0, "", "", "", "", "");

    assert!(result.is_err());
}

#[test]
fn save_reminder_invalid_date_returns_error() {
    let mut reminders = vec![Reminder::new("喝水", "")];

    let result = save_reminder(&mut reminders, 0, "喝水", "", 0, "", "not-a-date", "", "", "");

    assert!(result.is_err());
    assert!(result.unwrap_err().contains("无效日期格式"));
}

#[test]
fn save_reminder_empty_amount_for_repeat_returns_error() {
    let mut reminders = vec![Reminder::new("喝水", "")];

    let result = save_reminder(&mut reminders, 0, "喝水", "", 2, "", "", "", "", "");

    assert!(result.is_err());
}

#[test]
fn save_reminder_error_messages() {
    let mut reminders = vec![Reminder::new("喝水", "")];

    assert_eq!(
        save_reminder(&mut reminders, 0, "a", "", 1, " x ", "", "", "", ""),
        Err("无效的间隔数值: ' x '".to_string())
    );
    assert_eq!(
        save_reminder(&mut reminders, 0, "a", "", 3, "0", "", "", "", ""),
        Err("间隔数值不能为 0".to_string())
    );
    assert_eq!(
        save_reminder(&mut reminders, 0, "a", "", 0, "", " 2026-13-01 ", "", "", ""),
        Err("无效日期格式: '2026-13-01'（应为 YYYY-MM-DD）".to_string())
    );
    assert_eq!(
        save_reminder(&mut reminders, 0, "a", "", 0, "", "", "", "25:00", ""),
        Err("无效时间格式: '25:00'（应为 HH:MM）".to_string())
    );
}

#[test]
fn save_reminder_keeps_fields_before_the_error() {
    let mut reminders = vec![Reminder::new("喝水", "")];

    let result = save_reminder(&mut reminders, 0, "新", "内容", 1, "+20", "2026-06-01", "bad", "", "");

    assert!(result.is_err());
    let r = &reminders[0];
    assert_eq!(r.title, "新");
    assert_eq!(r.content, "内容");
    assert_eq!(r.repeat, Some(RepeatInterval::Minutes(20)));
    assert_eq!(r.start_date, Some(Date::from_ymd_opt(2026, 6, 1).unwrap()));
    assert_eq!(r.end_date, None);
}

#[test]
fn save_reminder_amount_is_trimmed_and_bounded() {
    let mut reminders = vec![Reminder::new("喝水", "")];

    save_reminder(&mut reminders, 0, "a", "", 3, " 4294967295 ", "", "", "", "").unwrap();
    assert_eq!(reminders[0].repeat, Some(RepeatInterval::Days(4294967295)));

    assert!(save_reminder(&mut reminders, 0, "a", "", 3, "4294967296", "", "", "", "").is_err());
    assert!(save_reminder(&mut reminders, 0, "a", "", 3, "-1", "", "", "", "").is_err());
    assert!(save_reminder(&mut reminders, 0, "a", "", 3, "+", "", "", "", "").is_err());
}

#[test]
fn repeat_type_index_returns_correct_value() {
    assert_eq!(repeat_type_index(&Reminder::new("a", "")), 0);

    let min = Reminder::new("a", "").with_repeat(RepeatInterval::Minutes(5));
    assert_eq!(repeat_type_index(&min), 1);

    let hr = Reminder::new("a", "").with_repeat(RepeatInterval::Hours(2));
    assert_eq!(repeat_type_index(&hr), 2);

    let day = Reminder::new("a", "").with_repeat(RepeatInterval::Days(1));
    assert_eq!(repeat_type_index(&day), 3);
}

#[test]
fn repeat_amount_in_decimal() {
    assert_eq!(repeat_amount(&Reminder::new("a", "")), "");
    assert_eq!(repeat_amount(&Reminder::new("a", "").with_repeat(RepeatInterval::Minutes(0))), "0");
    assert_eq!(repeat_amount(&Reminder::new("a", "").with_repeat(RepeatInterval::Hours(120))), "120");
    assert_eq!(
        repeat_amount(&Reminder::new("a", "").with_repeat(RepeatInterval::Days(4294967295))),
        "4294967295"
    );
}

#[test]
fn format_date_some_and_none() {
    assert_eq!(format_date(Some(Date::from_ymd_opt(2026, 6, 1).unwrap())), "2026-06-01");
    assert_eq!(format_date(None), "");
}

#[test]
fn format_date_outside_four_digit_years() {
    assert_eq!(format_date(Some(Date::from_ymd_opt(33, 1, 5).unwrap())), "0033-01-05");
    assert_eq!(format_date(Some(Date::from_ymd_opt(12345, 11, 30).unwrap())), "+12345-11-30");
    assert_eq!(format_date(Some(Date::from_ymd_opt(-1, 2, 28).unwrap())), "-0001-02-28");
}

#[test]
fn format_time_some_and_none() {
    assert_eq!(format_time(Some(Time::from_hms_opt(9, 30, 0).unwrap())), "09:30");
    assert_eq!(format_time(None), "");
}

#[test]
fn panel_fields_show_reminder() {
    let mut r = Reminder::new("喝水", "内容").with_repeat(RepeatInterval::Minutes(45));
    r.start_date = Date::from_ymd_opt(2026, 6, 1);
    r.daily_end = Time::from_hms_opt(18, 5, 0);
    r.repeat_limit = Some(7);

    let p = panel_fields(&r);

    assert_eq!(p.title, "喝水");
    assert_eq!(p.content, "内容");
    assert_eq!(p.repeat_type, 1);
    assert_eq!(p.repeat_amount, "45");
    assert_eq!(p.start_date, "2026-06-01");
    assert_eq!(p.end_date, "");
    assert_eq!(p.daily_start, "");
    assert_eq!(p.daily_end, "18:05");
    assert_eq!(p.repeat_limit, "7");
}

#[test]
fn formatted_dates_read_back() {
    for (y, m, d) in [(2026, 6, 3), (1, 1, 1), (999, 12, 31), (2024, 2, 29), (9999, 12, 31)] {
        let date = Date::from_ymd_opt(y, m, d).unwrap();
        let text = format_date(Some(date));
        assert_eq!(parse_optional_date(&text), Ok(Some(date)));
        assert_eq!(parse_optional_date(&format!("  {}\n", text)), Ok(Some(date)));
    }
    assert_eq!(parse_optional_date(&format_date(None)), Ok(None));
}

#[test]
fn formatted_times_read_back_at_the_minute() {
    let t = Time::from_hms_opt(9, 5, 0).unwrap();
    assert_eq!(parse_optional_time(&format_time(Some(t))), Ok(Some(t)));
    let with_seconds = Time { hour: 23, minute: 59, second: 41, nanosecond: 7 };
    assert_eq!(
        parse_optional_time(&format_time(Some(with_seconds))),
        Ok(Some(Time::from_hms_opt(23, 59, 0).unwrap()))
    );
    assert_eq!(parse_optional_time(&format_time(None)), Ok(None));
}

fn scheduled_reminder() -> Reminder {
    let mut r = Reminder::new("喝水", "每小时喝一杯水");
    r.repeat = Some(RepeatInterval::Hours(2));
    r.start_date = Date::from_ymd_opt(2026, 1, 1);
    r.end_date = Date::from_ymd_opt(2026, 12, 31);
    r.daily_start = Time::from_hms_opt(9, 0, 0);
    r.daily_end = Time::from_hms_opt(18, 30, 0);
    r.repeat_limit = Some(3);
    r.trigger_count = 1;
    r
}

#[test]
fn saving_the_panel_unchanged_keeps_the_reminder() {
    let r = scheduled_reminder();
    let mut reminders = vec![Reminder::new("a", "b"), r.clone()];
    let p = panel_fields(&r);
    let res = save_reminder(
        &mut reminders,
        1,
        &p.title,
        &p.content,
        p.repeat_type,
        &p.repeat_amount,
        &p.start_date,
        &p.end_date,
        &p.daily_start,
        &p.daily_end,
    );
    assert_eq!(res, Ok(()));
    let s = &reminders[1];
    assert_eq!(s.title, r.title);
    assert_eq!(s.content, r.content);
    assert_eq!(s.repeat, r.repeat);
    assert_eq!(s.start_date, r.start_date);
    assert_eq!(s.end_date, r.end_date);
    assert_eq!(s.daily_start, r.daily_start);
    assert_eq!(s.daily_end, r.daily_end);
    assert_eq!(s.repeat_limit, r.repeat_limit);
    assert_eq!(s.trigger_count, r.trigger_count);
    assert_eq!(reminders[0].title, "a");
}
