use activity_inquirer::database::{row_to_activity, Database, Row, StoreError};
use activity_inquirer::models::{Day, Timestamp, MAX_LOCAL_SECS, MIN_LOCAL_SECS};

// 2024-03-05T09:30:00Z
const MORNING: i64 = 1_709_631_000;

fn at(secs: i64, nanos: u32, offset: i32) -> Timestamp {
    Timestamp { secs, nanos, offset }
}

fn march(day: u32) -> Day {
    Day { year: 2024, month: 3, day }
}

fn row(id: i64, description: &str, timestamp: &str, date: &str) -> Row {
    Row {
        id,
        description: description.to_string(),
        timestamp: timestamp.to_string(),
        date: date.to_string(),
    }
}

#[test]
fn a_new_log_is_empty() {
    let db = Database::new();
    assert_eq!(db.len(), 0);
    assert_eq!(db.count_for_day(march(5)), 0);
    assert!(db.last_for_day(march(5)).is_none());
    assert!(db.get_activities_for_date(march(5)).is_empty());
    assert!(db.to_rows().is_empty());
}

#[test]
fn append_returns_the_record_with_its_identifier_and_date() {
    let mut db = Database::new();
    let now = at(MORNING, 250, 3600);
    let record = db.add_activity_at("reading".to_string(), now).unwrap();
    assert_eq!(record.id, Some(1));
    assert_eq!(record.description, "reading");
    assert_eq!(record.timestamp, now);
    assert_eq!(record.date, march(5));
    assert_eq!(db.len(), 1);
}

#[test]
fn the_date_is_taken_in_the_offset_of_the_timestamp() {
    let mut db = Database::new();
    // 2024-03-05T23:30:00Z is the 6th one hour east and the 5th three hours west.
    let east = db.add_activity_at("a".to_string(), at(MORNING + 50_400, 0, 3600)).unwrap();
    let west = db.add_activity_at("b".to_string(), at(MORNING + 50_400, 0, -10_800)).unwrap();
    assert_eq!(east.date, march(6));
    assert_eq!(west.date, march(5));
}

#[test]
fn the_date_at_the_edges_of_the_supported_years() {
    let mut db = Database::new();
    let first = db.add_activity_at("a".to_string(), at(MIN_LOCAL_SECS, 0, 0)).unwrap();
    let last = db.add_activity_at("b".to_string(), at(MAX_LOCAL_SECS, 999_999_999, 0)).unwrap();
    assert_eq!(first.date, Day { year: 0, month: 1, day: 1 });
    assert_eq!(last.date, Day { year: 9999, month: 12, day: 31 });
    let shifted = db.add_activity_at("c".to_string(), at(MAX_LOCAL_SECS - 3600, 0, 3600)).unwrap();
    assert_eq!(shifted.date, Day { year: 9999, month: 12, day: 31 });
}

#[test]
fn append_fails_outside_the_supported_years_and_changes_nothing() {
    let mut db = Database::new();
    db.add_activity_at("kept".to_string(), at(MORNING, 0, 0)).unwrap();
    let result = db.add_activity_at("lost".to_string(), at(MAX_LOCAL_SECS + 1, 0, 0));
    assert_eq!(result.unwrap_err(), StoreError::Unavailable);
    let result = db.add_activity_at("lost".to_string(), at(MORNING, 1_000_000_000, 0));
    assert_eq!(result.unwrap_err(), StoreError::Unavailable);
    let result = db.add_activity_at("lost".to_string(), at(MORNING, 0, 86_400));
    assert_eq!(result.unwrap_err(), StoreError::Unavailable);
    assert_eq!(db.len(), 1);
    assert_eq!(db.to_rows()[0].description, "kept");
}

#[test]
fn append_fails_when_no_identifier_is_left() {
    let rows = vec![row(i64::MAX, "last", "2024-03-05T10:30:00+01:00", "2024-03-05")];
    let mut db = Database::from_rows(&rows).unwrap();
    let result = db.add_activity_at("more".to_string(), at(MORNING, 0, 0));
    assert_eq!(result.unwrap_err(), StoreError::Unavailable);
    assert_eq!(db.len(), 1);
}

#[test]
fn append_now_uses_the_clock() {
    let mut db = Database::new();
    let record = db.add_activity("now".to_string()).unwrap();
    assert_eq!(record.id, Some(1));
    assert!(record.timestamp.secs > 1_700_000_000);
    assert!(record.date.is_valid());
    assert_eq!(db.count_activities_today().unwrap(), 1);
    let last = db.get_last_activity_today().unwrap().unwrap();
    assert_eq!(last.description, "now");
}

#[test]
fn appending_twice_makes_two_records() {
    let mut db = Database::new();
    let first = db.add_activity_at("same".to_string(), at(MORNING, 0, 0)).unwrap();
    let second = db.add_activity_at("same".to_string(), at(MORNING + 60, 0, 0)).unwrap();
    assert_ne!(first.id, second.id);
    assert_eq!(first.id, Some(1));
    assert_eq!(second.id, Some(2));
    assert!(first.timestamp.is_before(&second.timestamp));
    assert_eq!(db.len(), 2);
    assert_eq!(db.count_for_day(march(5)), 2);
    let listing = db.get_activities_for_date(march(5));
    assert_eq!(listing.len(), 2);
    assert_eq!(listing[0].id, Some(1));
    assert_eq!(listing[1].id, Some(2));
    assert_eq!(listing[0].description, "same");
    assert_eq!(listing[1].description, "same");
}

#[test]
fn appending_twice_at_the_same_instant_keeps_the_order_of_insertion() {
    let mut db = Database::new();
    db.add_activity_at("same".to_string(), at(MORNING, 7, 0)).unwrap();
    db.add_activity_at("same".to_string(), at(MORNING, 7, 0)).unwrap();
    let listing = db.get_activities_for_date(march(5));
    assert_eq!(listing[0].id, Some(1));
    assert_eq!(listing[1].id, Some(2));
    assert_eq!(db.last_for_day(march(5)).unwrap().id, Some(2));
}

#[test]
fn count_is_by_day() {
    let mut db = Database::new();
    db.add_activity_at("a".to_string(), at(MORNING, 0, 0)).unwrap();
    db.add_activity_at("b".to_string(), at(MORNING + 86_400, 0, 0)).unwrap();
    db.add_activity_at("c".to_string(), at(MORNING + 100, 0, 0)).unwrap();
    assert_eq!(db.count_for_day(march(5)), 2);
    assert_eq!(db.count_for_day(march(6)), 1);
    assert_eq!(db.count_for_day(march(7)), 0);
}

#[test]
fn listing_is_ascending_by_time_whatever_the_order_of_insertion() {
    let mut db = Database::new();
    db.add_activity_at("noon".to_string(), at(MORNING + 9000, 0, 0)).unwrap();
    db.add_activity_at("other day".to_string(), at(MORNING + 86_400, 0, 0)).unwrap();
    db.add_activity_at("morning".to_string(), at(MORNING, 0, 0)).unwrap();
    db.add_activity_at("a bit later".to_string(), at(MORNING, 1, 0)).unwrap();
    db.add_activity_at("evening".to_string(), at(MORNING + 40_000, 0, 0)).unwrap();
    let listing = db.get_activities_for_date(march(5));
    let words: Vec<&str> = listing.iter().map(|a| a.description.as_str()).collect();
    assert_eq!(words, vec!["morning", "a bit later", "noon", "evening"]);
    let ids: Vec<Option<i64>> = listing.iter().map(|a| a.id).collect();
    assert_eq!(ids, vec![Some(3), Some(4), Some(1), Some(5)]);
    assert_eq!(db.len(), 5);
}

#[test]
fn every_listed_record_carries_the_date_of_its_timestamp() {
    let mut db = Database::new();
    for k in 0..20i64 {
        db.add_activity_at(format!("n{}", k), at(MORNING + k * 7_000, 0, -10_800)).unwrap();
    }
    for day in [march(5), march(6), march(7)] {
        for record in db.get_activities_for_date(day) {
            let local = chrono::DateTime::from_timestamp(record.timestamp.secs, 0)
                .unwrap()
                .with_timezone(&chrono::FixedOffset::east_opt(record.timestamp.offset).unwrap());
            assert_eq!(record.date.to_text(), local.date_naive().to_string());
            assert_eq!(record.date, day);
        }
    }
}

#[test]
fn last_is_the_record_with_the_greatest_timestamp() {
    let mut db = Database::new();
    db.add_activity_at("late".to_string(), at(MORNING + 500, 0, 0)).unwrap();
    db.add_activity_at("early".to_string(), at(MORNING, 0, 0)).unwrap();
    db.add_activity_at("tomorrow".to_string(), at(MORNING + 86_400, 0, 0)).unwrap();
    let last = db.last_for_day(march(5)).unwrap();
    assert_eq!(last.description, "late");
    assert_eq!(last.id, Some(1));
    assert_eq!(db.last_for_day(march(6)).unwrap().description, "tomorrow");
    assert!(db.last_for_day(march(4)).is_none());
}

#[test]
fn last_ends_the_listing() {
    let mut db = Database::new();
    for (k, secs) in [300i64, 100, 200, 300, 50].iter().enumerate() {
        db.add_activity_at(format!("n{}", k), at(MORNING + secs, 0, 0)).unwrap();
    }
    let listing = db.get_activities_for_date(march(5));
    let last = db.last_for_day(march(5)).unwrap();
    assert_eq!(listing.last().unwrap().id, last.id);
    assert_eq!(last.id, Some(4));
}

#[test]
fn rows_are_written_as_text() {
    let mut db = Database::new();
    db.add_activity_at("reading".to_string(), at(MORNING, 0, 3600)).unwrap();
    db.add_activity_at("writing".to_string(), at(MORNING + 50_400, 500_000_000, -10_800)).unwrap();
    let rows = db.to_rows();
    assert_eq!(rows.len(), 2);
    assert_eq!(rows[0].id, 1);
    assert_eq!(rows[0].description, "reading");
    assert_eq!(rows[0].timestamp, "2024-03-05T10:30:00+01:00");
    assert_eq!(rows[0].date, "2024-03-05");
    assert_eq!(rows[1].id, 2);
    assert_eq!(rows[1].description, "writing");
    assert_eq!(rows[1].timestamp, "2024-03-05T20:30:00.500-03:00");
    assert_eq!(rows[1].date, "2024-03-05");
}

#[test]
fn a_row_is_read_into_a_record() {
    let record = row_to_activity(&row(9, "reading", "2024-03-05T10:30:00+01:00", "2024-03-05"))
        .unwrap();
    assert_eq!(record.id, Some(9));
    assert_eq!(record.description, "reading");
    assert_eq!(record.timestamp, at(MORNING, 0, 3600));
    assert_eq!(record.date, march(5));
}

#[test]
fn a_row_with_fraction_and_utc_mark_is_read() {
    let record = row_to_activity(&row(1, "x", "2024-03-05T09:30:00.000000250Z", "2024-03-06"))
        .unwrap();
    assert_eq!(record.timestamp, at(MORNING, 250, 0));
    assert_eq!(record.date, march(6));
}

#[test]
fn a_row_with_a_bad_timestamp_names_column_two() {
    for text in ["", "yesterday", "2024-03-05", "2024-13-05T10:30:00+01:00", "2024-03-05 10:30"] {
        let error = row_to_activity(&row(1, "x", text, "2024-03-05")).unwrap_err();
        assert_eq!(error.index, 2);
        assert_eq!(error.name, "timestamp");
    }
}

#[test]
fn a_row_with_a_bad_date_names_column_three() {
    for text in ["", "05/03/2024", "2024-02-30", "2024-03-05T10:30:00+01:00", "10000-01-01"] {
        let error = row_to_activity(&row(1, "x", "2024-03-05T10:30:00+01:00", text)).unwrap_err();
        assert_eq!(error.index, 3);
        assert_eq!(error.name, "date");
    }
}

#[test]
fn a_row_with_both_columns_bad_names_the_timestamp() {
    let error = row_to_activity(&row(1, "x", "bad", "bad")).unwrap_err();
    assert_eq!(error.index, 2);
}

#[test]
fn a_log_is_read_back_from_its_rows() {
    let mut db = Database::new();
    db.add_activity_at("reading".to_string(), at(MORNING, 0, 3600)).unwrap();
    db.add_activity_at("writing".to_string(), at(MORNING + 60, 123_000_000, 3600)).unwrap();
    db.add_activity_at("walking".to_string(), at(MORNING + 86_400, 1, -3600)).unwrap();
    let restored = Database::from_rows(&db.to_rows()).unwrap();
    assert_eq!(restored.len(), 3);
    let before = db.get_activities_for_date(march(5));
    let after = restored.get_activities_for_date(march(5));
    assert_eq!(before.len(), after.len());
    for (a, b) in before.iter().zip(after.iter()) {
        assert_eq!(a.id, b.id);
        assert_eq!(a.description, b.description);
        assert_eq!(a.timestamp, b.timestamp);
        assert_eq!(a.date, b.date);
    }
    assert_eq!(restored.count_for_day(march(6)), 1);
}

#[test]
fn a_restored_log_goes_on_with_the_next_identifier() {
    let rows = vec![
        row(3, "a", "2024-03-05T10:30:00+01:00", "2024-03-05"),
        row(8, "b", "2024-03-05T11:30:00+01:00", "2024-03-05"),
    ];
    let mut db = Database::from_rows(&rows).unwrap();
    let record = db.add_activity_at("c".to_string(), at(MORNING + 9000, 0, 3600)).unwrap();
    assert_eq!(record.id, Some(9));
}

#[test]
fn rows_that_cannot_be_read_make_the_log_unavailable() {
    let bad_time = vec![row(1, "a", "not a time", "2024-03-05")];
    assert_eq!(Database::from_rows(&bad_time).unwrap_err(), StoreError::Unavailable);
    let bad_date = vec![
        row(1, "a", "2024-03-05T10:30:00+01:00", "2024-03-05"),
        row(2, "b", "2024-03-05T10:30:00+01:00", "not a date"),
    ];
    assert_eq!(Database::from_rows(&bad_date).unwrap_err(), StoreError::Unavailable);
}

#[test]
fn rows_with_identifiers_out_of_order_make_the_log_unavailable() {
    let repeated = vec![
        row(1, "a", "2024-03-05T10:30:00+01:00", "2024-03-05"),
        row(1, "b", "2024-03-05T11:30:00+01:00", "2024-03-05"),
    ];
    assert_eq!(Database::from_rows(&repeated).unwrap_err(), StoreError::Unavailable);
    let falling = vec![
        row(2, "a", "2024-03-05T10:30:00+01:00", "2024-03-05"),
        row(1, "b", "2024-03-05T11:30:00+01:00", "2024-03-05"),
    ];
    assert_eq!(Database::from_rows(&falling).unwrap_err(), StoreError::Unavailable);
    let zero = vec![row(0, "a", "2024-03-05T10:30:00+01:00", "2024-03-05")];
    assert_eq!(Database::from_rows(&zero).unwrap_err(), StoreError::Unavailable);
    let negative = vec![row(-4, "a", "2024-03-05T10:30:00+01:00", "2024-03-05")];
    assert_eq!(Database::from_rows(&negative).unwrap_err(), StoreError::Unavailable);
}

#[test]
fn no_rows_make_an_empty_log() {
    let db = Database::from_rows(&Vec::new()).unwrap();
    assert_eq!(db.len(), 0);
}

#[test]
fn a_row_without_a_description_makes_the_log_unavailable() {
    let rows = vec![row(1, "", "2024-03-05T10:30:00+01:00", "2024-03-05")];
    assert_eq!(Database::from_rows(&rows).unwrap_err(), StoreError::Unavailable);
}
