use due::calendar::{Date, DateTime, Time};

#[test]
fn dates_follow_the_gregorian_calendar() {
    assert!(Date::from_ymd_opt(2024, 2, 29).is_some());
    assert!(Date::from_ymd_opt(2023, 2, 29).is_none());
    assert!(Date::from_ymd_opt(1900, 2, 29).is_none());
    assert!(Date::from_ymd_opt(2000, 2, 29).is_some());
    assert!(Date::from_ymd_opt(-4, 2, 29).is_some());
    assert!(Date::from_ymd_opt(2026, 4, 31).is_none());
    assert!(Date::from_ymd_opt(2026, 13, 1).is_none());
    assert!(Date::from_ymd_opt(2026, 0, 1).is_none());
    assert!(Date::from_ymd_opt(2026, 1, 0).is_none());
    assert!(Date::from_ymd_opt(262142, 12, 31).is_some());
    assert!(Date::from_ymd_opt(262143, 1, 1).is_none());
    assert!(Date::from_ymd_opt(-262143, 1, 1).is_some());
    assert!(Date::from_ymd_opt(-262144, 12, 31).is_none());
}

#[test]
fn day_numbers_count_from_year_one() {
    assert_eq!(Date::from_ymd_opt(1, 1, 1).unwrap().num_days_from_ce(), 1);
    assert_eq!(Date::from_ymd_opt(0, 12, 31).unwrap().num_days_from_ce(), 0);
    assert_eq!(Date::from_ymd_opt(1999, 9, 3).unwrap().num_days_from_ce(), 730_000);
    assert_eq!(Date::from_ymd_opt(1970, 1, 1).unwrap().num_days_from_ce(), 719_163);
    assert_eq!(Date::from_ymd_opt(-1, 12, 31).unwrap().num_days_from_ce(), -366);
}

#[test]
fn times_of_day_are_bounded() {
    assert!(Time::from_hms_opt(23, 59, 59).is_some());
    assert!(Time::from_hms_opt(24, 0, 0).is_none());
    assert!(Time::from_hms_opt(0, 60, 0).is_none());
    assert!(Time::from_hms_opt(0, 0, 60).is_none());
    assert_eq!(Time::from_hms_opt(1, 2, 3).unwrap().num_seconds_from_midnight(), 3723);
}

#[test]
fn instants_order_date_times() {
    let a = DateTime {
        date: Date::from_ymd_opt(1970, 1, 1).unwrap(),
        time: Time::from_hms_opt(0, 0, 1).unwrap(),
    };
    assert_eq!(a.instant_secs(), 719_163 * 86400 + 1);
}
