use cryo_freeze::date::Date;

fn text(year: i32, month: u32, day: u32) -> String {
    Date::from_ymd_opt(year, month, day).unwrap().to_text()
}

#[test]
fn dates_in_file_names() {
    assert_eq!(text(2023, 7, 4), "2023-07-04__data");
    assert_eq!(text(1999, 12, 31), "1999-12-31__data");
    assert_eq!(text(7, 1, 1), "0007-01-01__data");
    assert_eq!(text(0, 1, 1), "0000-01-01__data");
}

#[test]
fn dates_far_away() {
    assert_eq!(text(10_000, 1, 1), "+10000-01-01__data");
    assert_eq!(text(262_142, 12, 31), "+262142-12-31__data");
    assert_eq!(text(-1, 2, 3), "-0001-02-03__data");
    assert_eq!(text(-9_999, 2, 3), "-9999-02-03__data");
    assert_eq!(text(-10_000, 2, 3), "-10000-02-03__data");
    assert_eq!(text(-262_143, 1, 1), "-262143-01-01__data");
}

#[test]
fn days_of_the_calendar() {
    assert!(Date::from_ymd_opt(2024, 2, 29).is_some());
    assert!(Date::from_ymd_opt(2023, 2, 29).is_none());
    assert!(Date::from_ymd_opt(1900, 2, 29).is_none());
    assert!(Date::from_ymd_opt(2000, 2, 29).is_some());
    assert!(Date::from_ymd_opt(2023, 4, 30).is_some());
    assert!(Date::from_ymd_opt(2023, 4, 31).is_none());
    assert!(Date::from_ymd_opt(2023, 0, 1).is_none());
    assert!(Date::from_ymd_opt(2023, 13, 1).is_none());
    assert!(Date::from_ymd_opt(2023, 1, 0).is_none());
    assert!(Date::from_ymd_opt(262_142, 12, 31).is_some());
    assert!(Date::from_ymd_opt(262_143, 1, 1).is_none());
    assert!(Date::from_ymd_opt(-262_143, 1, 1).is_some());
    assert!(Date::from_ymd_opt(-262_144, 12, 31).is_none());
}
