use calorie_store::entry::Entry;
use calorie_store::table::{ConflictKind, InsertOutcome, Table};

#[test]
fn round_trip_create_then_list() {
    let mut t = Table::new();
    assert_eq!(t.insert(100, 500), InsertOutcome::Created);
    let rows = t.list_all();
    assert_eq!(rows.len(), 1);
    assert_eq!(rows[0], Entry { timestamp: 100, calories: 500 });
}

#[test]
fn duplicate_timestamp_conflicts_and_keeps_first_value() {
    let mut t = Table::new();
    assert_eq!(t.insert(42, 10), InsertOutcome::Created);
    assert_eq!(
        t.insert(42, 999),
        InsertOutcome::Conflict(ConflictKind::DuplicateTimestamp)
    );
    assert_eq!(
        t.insert(42, 10),
        InsertOutcome::Conflict(ConflictKind::DuplicateTimestamp)
    );
    let rows = t.list_all();
    assert_eq!(rows.len(), 1);
    assert_eq!(rows[0], Entry { timestamp: 42, calories: 10 });
}

#[test]
fn negative_calories_conflict_and_are_not_persisted() {
    let mut t = Table::new();
    assert_eq!(
        t.insert(7, -1),
        InsertOutcome::Conflict(ConflictKind::NegativeCalories)
    );
    assert!(t.list_all().is_empty());
    assert!(!t.contains_ts(7));
}

#[test]
fn zero_timestamp_conflicts() {
    let mut t = Table::new();
    assert_eq!(
        t.insert(0, 5),
        InsertOutcome::Conflict(ConflictKind::ZeroTimestamp)
    );
    assert!(t.list_all().is_empty());
}

#[test]
fn delete_missing_reports_zero_rows_every_time() {
    let mut t = Table::new();
    assert_eq!(t.delete_by_timestamp(123), 0);
    assert_eq!(t.delete_by_timestamp(123), 0);
}

#[test]
fn delete_removes_exactly_the_keyed_row() {
    let mut t = Table::new();
    assert_eq!(t.insert(1, 100), InsertOutcome::Created);
    assert_eq!(t.insert(2, 200), InsertOutcome::Created);
    assert_eq!(t.insert(3, 300), InsertOutcome::Created);
    assert_eq!(t.delete_by_timestamp(2), 1);
    let rows = t.list_all();
    assert_eq!(
        rows,
        vec![
            Entry { timestamp: 1, calories: 100 },
            Entry { timestamp: 3, calories: 300 },
        ]
    );
}

#[test]
fn race_of_two_creates_admits_exactly_one() {
    // The storage engine serializes the two attempts; whichever runs first
    // wins, the other conflicts, and exactly one row remains.
    let mut t = Table::new();
    let first = t.insert(555, 1);
    let second = t.insert(555, 2);
    assert_eq!(first, InsertOutcome::Created);
    assert_eq!(
        second,
        InsertOutcome::Conflict(ConflictKind::DuplicateTimestamp)
    );
    let rows = t.list_all();
    assert_eq!(rows.len(), 1);
    assert_eq!(rows[0], Entry { timestamp: 555, calories: 1 });
}

#[test]
fn negative_timestamps_are_allowed_by_the_schema() {
    let mut t = Table::new();
    assert_eq!(t.insert(-5, 12), InsertOutcome::Created);
    assert!(t.contains_ts(-5));
    assert_eq!(t.delete_by_timestamp(-5), 1);
    assert!(!t.contains_ts(-5));
}
