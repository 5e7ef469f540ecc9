use due::reminder::{Reminder, RepeatInterval};

#[test]
fn create_reminder_with_required_fields() {
    let reminder = Reminder::new("买菜", "鸡蛋、牛奶");

    assert_eq!(reminder.title, "买菜");
    assert_eq!(reminder.content, "鸡蛋、牛奶");
    assert!(reminder.enabled);
    assert!(!reminder.completed);
}

#[test]
fn new_reminder_has_no_schedule() {
    let reminder = Reminder::new("买菜", "");

    assert_eq!(reminder.repeat, None);
    assert_eq!(reminder.next_trigger, None);
    assert_eq!(reminder.start_date, None);
    assert_eq!(reminder.end_date, None);
    assert_eq!(reminder.daily_start, None);
    assert_eq!(reminder.daily_end, None);
    assert_eq!(reminder.repeat_limit, None);
    assert_eq!(reminder.trigger_count, 0);
}

#[test]
fn with_repeat_sets_only_the_repeat_rule() {
    let reminder = Reminder::new("买菜", "鸡蛋").with_repeat(RepeatInterval::Days(2));

    assert_eq!(reminder.repeat, Some(RepeatInterval::Days(2)));
    assert_eq!(reminder.title, "买菜");
    assert!(reminder.enabled);
}

#[test]
fn interval_lengths_in_seconds() {
    assert_eq!(RepeatInterval::Minutes(5).num_seconds(), 300);
    assert_eq!(RepeatInterval::Hours(2).num_seconds(), 7200);
    assert_eq!(RepeatInterval::Days(1).num_seconds(), 86400);
    assert_eq!(RepeatInterval::Days(u32::MAX).num_seconds(), u32::MAX as i64 * 86400);
}
