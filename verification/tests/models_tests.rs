use activity_inquirer::models::{
    Activity, AppPage, Day, Theme, Timestamp, MAX_LOCAL_SECS, MIN_LOCAL_SECS,
};

fn at(secs: i64, nanos: u32, offset: i32) -> Timestamp {
    Timestamp { secs, nanos, offset }
}

#[test]
fn timestamps_within_the_supported_years_are_valid() {
    assert!(at(0, 0, 0).is_valid());
    assert!(at(1_709_631_000, 999_999_999, 3600).is_valid());
    assert!(at(MIN_LOCAL_SECS, 0, 0).is_valid());
    assert!(at(MAX_LOCAL_SECS, 0, 0).is_valid());
    assert!(at(MAX_LOCAL_SECS + 3600, 0, -3600).is_valid());
}

#[test]
fn timestamps_outside_the_supported_years_are_invalid() {
    assert!(!at(MIN_LOCAL_SECS - 1, 0, 0).is_valid());
    assert!(!at(MAX_LOCAL_SECS + 1, 0, 0).is_valid());
    assert!(!at(MAX_LOCAL_SECS, 0, 1).is_valid());
    assert!(!at(i64::MAX, 0, 0).is_valid());
    assert!(!at(i64::MIN, 0, 0).is_valid());
}

#[test]
fn timestamps_with_bad_parts_are_invalid() {
    assert!(!at(0, 1_000_000_000, 0).is_valid());
    assert!(!at(0, 0, 86_400).is_valid());
    assert!(!at(0, 0, -86_400).is_valid());
    assert!(at(0, 0, 86_399).is_valid());
    assert!(at(0, 0, -86_399).is_valid());
}

#[test]
fn order_of_timestamps_ignores_the_offset() {
    let early = at(100, 5, 3600);
    let late = at(100, 6, -3600);
    assert!(early.is_before(&late));
    assert!(!late.is_before(&early));
    assert!(!early.is_before(&early));
    assert!(at(99, 999_999_999, 0).is_before(&early));
}

#[test]
fn days_that_exist_are_valid() {
    assert!(Day { year: 2024, month: 2, day: 29 }.is_valid());
    assert!(Day { year: 2000, month: 2, day: 29 }.is_valid());
    assert!(Day { year: 0, month: 1, day: 1 }.is_valid());
    assert!(Day { year: 9999, month: 12, day: 31 }.is_valid());
    assert!(Day { year: 2023, month: 4, day: 30 }.is_valid());
}

#[test]
fn days_that_do_not_exist_are_invalid() {
    assert!(!Day { year: 2023, month: 2, day: 29 }.is_valid());
    assert!(!Day { year: 1900, month: 2, day: 29 }.is_valid());
    assert!(!Day { year: 2023, month: 4, day: 31 }.is_valid());
    assert!(!Day { year: 2023, month: 13, day: 1 }.is_valid());
    assert!(!Day { year: 2023, month: 0, day: 1 }.is_valid());
    assert!(!Day { year: 2023, month: 1, day: 0 }.is_valid());
    assert!(!Day { year: 2023, month: 1, day: 32 }.is_valid());
    assert!(!Day { year: -1, month: 1, day: 1 }.is_valid());
    assert!(!Day { year: 10000, month: 1, day: 1 }.is_valid());
}

#[test]
fn day_text_is_iso() {
    assert_eq!(Day { year: 2024, month: 3, day: 5 }.to_text(), "2024-03-05");
    assert_eq!(Day { year: 7, month: 12, day: 31 }.to_text(), "0007-12-31");
    assert_eq!(Day { year: 0, month: 1, day: 1 }.to_text(), "0000-01-01");
    assert_eq!(Day { year: 9999, month: 12, day: 31 }.to_text(), "9999-12-31");
}

#[test]
fn day_text_agrees_with_chrono() {
    let date = chrono::NaiveDate::from_ymd_opt(1987, 11, 9).unwrap();
    assert_eq!(Day { year: 1987, month: 11, day: 9 }.to_text(), date.to_string());
}

#[test]
fn duplicate_keeps_every_field() {
    let activity = Activity {
        id: Some(7),
        description: "writing code".to_string(),
        timestamp: at(1_709_631_000, 12, 3600),
        date: Day { year: 2024, month: 3, day: 5 },
    };
    let copy = activity.duplicate();
    assert_eq!(copy.id, Some(7));
    assert_eq!(copy.description, "writing code");
    assert_eq!(copy.timestamp, activity.timestamp);
    assert_eq!(copy.date, activity.date);
}

#[test]
fn theme_names() {
    assert_eq!(Theme::GruvboxDark.name(), "GruvboxDark");
    assert_eq!(Theme::GruvboxLight.name(), "GruvboxLight");
    assert_eq!(Theme::from_name("GruvboxLight"), Theme::GruvboxLight);
    assert_eq!(Theme::from_name("GruvboxDark"), Theme::GruvboxDark);
    assert_eq!(Theme::from_name("anything else"), Theme::GruvboxDark);
    assert_eq!(Theme::from_name(""), Theme::GruvboxDark);
    assert_eq!(Theme::from_name("gruvboxlight"), Theme::GruvboxDark);
}

#[test]
fn theme_name_round_trip() {
    for theme in [Theme::GruvboxDark, Theme::GruvboxLight] {
        assert_eq!(Theme::from_name(&theme.name()), theme);
    }
}

#[test]
fn default_theme_is_dark() {
    assert_eq!(Theme::default(), Theme::GruvboxDark);
}

#[test]
fn pages_differ() {
    assert_ne!(AppPage::Viewer, AppPage::Settings);
}

#[test]
fn time_of_day_is_local() {
    // 2024-03-05T09:30:00Z
    let morning = 1_709_631_000;
    assert_eq!(at(morning, 0, 0).time_text(), "09:30");
    assert_eq!(at(morning, 0, 3600).time_text(), "10:30");
    assert_eq!(at(morning, 0, -34_200).time_text(), "00:00");
    assert_eq!(at(morning + 59, 999_999_999, 0).clock_text(), "09:30:59");
    assert_eq!(at(morning + 52_199, 0, 0).clock_text(), "23:59:59");
    assert_eq!(at(-1, 0, 0).clock_text(), "23:59:59");
    assert_eq!(at(-86_400, 0, 0).time_text(), "00:00");
    assert_eq!(at(MIN_LOCAL_SECS, 0, 0).clock_text(), "00:00:00");
    assert_eq!(at(MAX_LOCAL_SECS, 0, 0).clock_text(), "23:59:59");
}

#[test]
fn time_of_day_agrees_with_chrono() {
    for (secs, offset) in [(1_709_631_000i64, 3600), (-5, -10_800), (951_782_399, 19_800)] {
        let zone = chrono::FixedOffset::east_opt(offset).unwrap();
        let time = chrono::DateTime::from_timestamp(secs, 0).unwrap().with_timezone(&zone);
        assert_eq!(at(secs, 0, offset).time_text(), time.format("%H:%M").to_string());
        assert_eq!(at(secs, 0, offset).clock_text(), time.format("%H:%M:%S").to_string());
    }
}

#[test]
fn dates_for_the_screen() {
    let day = Day { year: 2024, month: 3, day: 5 };
    assert_eq!(day.to_day_month(), "05/03");
    assert_eq!(day.to_day_month_year(), "05/03/2024");
    assert_eq!(Day { year: 33, month: 12, day: 31 }.to_day_month_year(), "31/12/0033");
}

#[test]
fn the_day_before() {
    let day = |year, month, day| Day { year, month, day };
    assert_eq!(day(2024, 3, 5).previous(), Some(day(2024, 3, 4)));
    assert_eq!(day(2024, 3, 1).previous(), Some(day(2024, 2, 29)));
    assert_eq!(day(2023, 3, 1).previous(), Some(day(2023, 2, 28)));
    assert_eq!(day(2024, 1, 1).previous(), Some(day(2023, 12, 31)));
    assert_eq!(day(2024, 5, 1).previous(), Some(day(2024, 4, 30)));
    assert_eq!(day(2024, 8, 1).previous(), Some(day(2024, 7, 31)));
    assert_eq!(day(0, 1, 1).previous(), None);
}

#[test]
fn the_day_before_agrees_with_chrono() {
    let mut day = Day { year: 2025, month: 1, day: 3 };
    let mut date = chrono::NaiveDate::from_ymd_opt(2025, 1, 3).unwrap();
    for _ in 0..800 {
        day = day.previous().unwrap();
        date = date.pred_opt().unwrap();
        assert_eq!(day.to_text(), date.to_string());
        assert!(day.is_valid());
    }
}
