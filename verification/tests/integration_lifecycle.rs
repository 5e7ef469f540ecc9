use due::reminder::RepeatInterval;
use due::store::ReminderStore;

/// Store A adds reminders; store B starts from what A holds.
#[test]
fn cross_instance_persistence() {
    let saved = {
        let mut store = ReminderStore::new(Vec::new());
        store.add("喝水", "每小时喝一杯水", 3);
        store.add("站立", "久坐后站起来", 4);
        store.reminders().clone()
    };

    let store = ReminderStore::new(saved);
    let reminders = store.reminders();

    assert_eq!(reminders.len(), 2);
    assert_eq!(reminders[0].title, "喝水");
    assert_eq!(reminders[0].content, "每小时喝一杯水");
    assert_eq!(reminders[0].repeat, Some(RepeatInterval::Hours(1)));
    assert!(reminders[0].enabled);
    assert!(reminders[0].next_trigger.is_some());

    assert_eq!(reminders[1].title, "站立");
    assert_eq!(reminders[1].repeat, Some(RepeatInterval::Days(1)));
}

/// Add, edit, toggle, delete.
#[test]
fn full_crud_workflow() {
    let mut store = ReminderStore::new(Vec::new());

    store.add("喝水", "每小时喝一杯水", 3);
    assert_eq!(store.reminders().len(), 1);

    store.apply_edit_data(0, "新标题", "新内容", 1, "30", "", "", "", "", "").unwrap();
    let reminders = store.reminders();
    assert_eq!(reminders[0].title, "新标题");
    assert_eq!(reminders[0].content, "新内容");
    assert_eq!(reminders[0].repeat, Some(RepeatInterval::Minutes(30)));

    store.toggle(0).unwrap();
    assert!(!store.reminders()[0].enabled);

    store.delete(0).unwrap();
    assert_eq!(store.reminders().len(), 0);
}

/// Add three, delete one, edit one, toggle one.
#[test]
fn multi_reminder_workflow() {
    let mut store = ReminderStore::new(Vec::new());

    store.add("喝水", "每小时", 3);
    store.add("站立", "久坐后", 4);
    store.add("买菜", "鸡蛋", 2);

    store.delete(1).unwrap();

    store.apply_edit_data(0, "新标题", "新内容", 3, "7", "", "", "", "", "").unwrap();

    store.toggle(1).unwrap();

    let reminders = store.reminders();
    assert_eq!(reminders.len(), 2);
    assert_eq!(reminders[0].title, "新标题");
    assert_eq!(reminders[0].repeat, Some(RepeatInterval::Days(7)));
    assert!(reminders[0].enabled);
    assert_eq!(reminders[1].title, "买菜");
    assert!(!reminders[1].enabled);
}
