use calorie_store::entry::Entry;
use calorie_store::handlers::{
    create_response, delete_response, handle_create, handle_delete, handle_list,
    list_error_response, list_response,
};
use calorie_store::table::Table;

#[test]
fn create_success_maps_to_201() {
    let r = create_response(Ok(()));
    assert_eq!(r.status, 201);
    assert_eq!(r.body, "Success");
}

#[test]
fn create_failure_maps_to_400_with_description() {
    let r = create_response(Err(String::from("database is locked")));
    assert_eq!(r.status, 400);
    assert_eq!(r.body, "error: database is locked");
}

#[test]
fn delete_outcomes_map_to_200_404_400() {
    let gone = delete_response(Ok(1));
    assert_eq!(gone.status, 200);
    assert_eq!(gone.body, "Success");

    let missing = delete_response(Ok(0));
    assert_eq!(missing.status, 404);
    assert_eq!(missing.body, "No data found");

    let failed = delete_response(Err(String::from("disk I/O error")));
    assert_eq!(failed.status, 400);
    assert_eq!(failed.body, "error: disk I/O error");
}

#[test]
fn list_maps_rows_to_200_with_json() {
    let rows = vec![
        Entry { timestamp: 100, calories: 500 },
        Entry { timestamp: 101, calories: 0 },
    ];
    let r = list_response(&rows);
    assert_eq!(r.status, 200);
    assert_eq!(
        r.body,
        "[{\"timestamp\":100,\"calories\":500},{\"timestamp\":101,\"calories\":0}]"
    );
}

#[test]
fn list_storage_failure_maps_to_500() {
    let r = list_error_response(String::from("malformed database schema"));
    assert_eq!(r.status, 500);
    assert_eq!(r.body, "error: malformed database schema");
}

#[test]
fn create_conflicts_name_the_violated_constraint() {
    let mut t = Table::new();
    let dup_setup = handle_create(&mut t, 9, 90);
    assert_eq!(dup_setup.status, 201);

    let dup = handle_create(&mut t, 9, 91);
    assert_eq!(dup.status, 400);
    assert_eq!(dup.body, "error: UNIQUE constraint failed: data.timestamp");

    let zero = handle_create(&mut t, 0, 90);
    assert_eq!(zero.status, 400);
    assert_eq!(
        zero.body,
        "error: CHECK constraint failed: non_zero_timestamp"
    );

    let neg = handle_create(&mut t, 10, -3);
    assert_eq!(neg.status, 400);
    assert_eq!(neg.body, "error: CHECK constraint failed: cal_not_neg");
}

#[test]
fn create_list_delete_list_delete_scenario() {
    let mut t = Table::new();

    let created = handle_create(&mut t, 100, 500);
    assert_eq!(created.status, 201);
    assert_eq!(created.body, "Success");

    let listed = handle_list(&t);
    assert_eq!(listed.status, 200);
    assert_eq!(listed.body, "[{\"timestamp\":100,\"calories\":500}]");

    let deleted = handle_delete(&mut t, 100);
    assert_eq!(deleted.status, 200);
    assert_eq!(deleted.body, "Success");

    let listed_again = handle_list(&t);
    assert_eq!(listed_again.status, 200);
    assert_eq!(listed_again.body, "[]");

    let deleted_again = handle_delete(&mut t, 100);
    assert_eq!(deleted_again.status, 404);
    assert_eq!(deleted_again.body, "No data found");
}
