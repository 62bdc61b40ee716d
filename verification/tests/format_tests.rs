use calorie_store::entry::Entry;
use calorie_store::json::{entries_to_json, entry_to_json, i64_to_string, u64_to_string};

#[test]
fn decimal_rendering_of_unsigned_values() {
    assert_eq!(u64_to_string(0), "0");
    assert_eq!(u64_to_string(7), "7");
    assert_eq!(u64_to_string(10), "10");
    assert_eq!(u64_to_string(305), "305");
    assert_eq!(u64_to_string(u64::MAX), "18446744073709551615");
}

#[test]
fn decimal_rendering_of_signed_values() {
    assert_eq!(i64_to_string(0), "0");
    assert_eq!(i64_to_string(42), "42");
    assert_eq!(i64_to_string(-1), "-1");
    assert_eq!(i64_to_string(-305), "-305");
    assert_eq!(i64_to_string(i64::MAX), "9223372036854775807");
    assert_eq!(i64_to_string(i64::MIN), "-9223372036854775808");
}

#[test]
fn one_entry_renders_as_a_json_object() {
    let e = Entry { timestamp: 100, calories: 500 };
    assert_eq!(entry_to_json(&e), "{\"timestamp\":100,\"calories\":500}");
}

#[test]
fn entry_lists_render_as_json_arrays() {
    assert_eq!(entries_to_json(&vec![]), "[]");
    assert_eq!(
        entries_to_json(&vec![Entry { timestamp: 1, calories: 2 }]),
        "[{\"timestamp\":1,\"calories\":2}]"
    );
    assert_eq!(
        entries_to_json(&vec![
            Entry { timestamp: 1, calories: 2 },
            Entry { timestamp: 3, calories: 0 },
            Entry { timestamp: -4, calories: 5 },
        ]),
        "[{\"timestamp\":1,\"calories\":2},{\"timestamp\":3,\"calories\":0},{\"timestamp\":-4,\"calories\":5}]"
    );
}
