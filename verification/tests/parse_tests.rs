use calorie_store::body::parse_calories;
use calorie_store::parse::parse_u32;
use calorie_store::routing::{route_request, Route};

#[test]
fn timestamp_segments_read_as_u32() {
    assert_eq!(parse_u32(b"0"), Some(0));
    assert_eq!(parse_u32(b"123"), Some(123));
    assert_eq!(parse_u32(b"+123"), Some(123));
    assert_eq!(parse_u32(b"0042"), Some(42));
    assert_eq!(parse_u32(b"0000000000000000001"), Some(1));
    assert_eq!(parse_u32(b"4294967295"), Some(u32::MAX));
}

#[test]
fn bad_timestamp_segments_are_rejected() {
    assert_eq!(parse_u32(b""), None);
    assert_eq!(parse_u32(b"+"), None);
    assert_eq!(parse_u32(b"-1"), None);
    assert_eq!(parse_u32(b"12a"), None);
    assert_eq!(parse_u32(b" 12"), None);
    assert_eq!(parse_u32(b"4294967296"), None);
    assert_eq!(parse_u32(b"99999999999999999999"), None);
}

#[test]
fn bodies_with_a_calorie_count_are_read() {
    assert_eq!(parse_calories(b"{\"calories\": 500}"), Some(500));
    assert_eq!(parse_calories(b"{\"calories\":0}"), Some(0));
    assert_eq!(parse_calories(b" { \"calories\" : -12 } "), Some(-12));
    assert_eq!(parse_calories(b"\t{\n\"calories\"\r:\n7\t}\n"), Some(7));
    assert_eq!(
        parse_calories(b"{\"calories\": 9223372036854775807}"),
        Some(i64::MAX)
    );
    assert_eq!(
        parse_calories(b"{\"calories\": -9223372036854775808}"),
        Some(i64::MIN)
    );
    assert_eq!(parse_calories(b"{\"calories\": -0}"), Some(0));
}

#[test]
fn malformed_bodies_are_rejected() {
    assert_eq!(parse_calories(b""), None);
    assert_eq!(parse_calories(b"{}"), None);
    assert_eq!(parse_calories(b"{\"calories\":}"), None);
    assert_eq!(parse_calories(b"{\"calories\": 1.5}"), None);
    assert_eq!(parse_calories(b"{\"calories\": 007}"), None);
    assert_eq!(parse_calories(b"{\"calories\": +5}"), None);
    assert_eq!(parse_calories(b"{\"calories\": \"5\"}"), None);
    assert_eq!(parse_calories(b"{\"calories\": 5"), None);
    assert_eq!(parse_calories(b"{\"calories\": 5}}"), None);
    assert_eq!(parse_calories(b"{\"calories\": 5} x"), None);
    assert_eq!(parse_calories(b"{\"calorie\": 5}"), None);
    assert_eq!(parse_calories(b"{\"calories\": 9223372036854775808}"), None);
    assert_eq!(parse_calories(b"{\"calories\": -9223372036854775809}"), None);
    assert_eq!(parse_calories(b"[5]"), None);
}

#[test]
fn requests_route_to_the_three_operations() {
    assert_eq!(route_request(b"GET", b"/health"), Route::ListEntries);
    assert_eq!(route_request(b"PUT", b"/health/123"), Route::CreateEntry(123));
    assert_eq!(route_request(b"DELETE", b"/health/9"), Route::DeleteEntry(9));
    assert_eq!(
        route_request(b"PUT", b"/health/4294967295"),
        Route::CreateEntry(u32::MAX)
    );
}

#[test]
fn other_requests_are_unmatched() {
    assert_eq!(route_request(b"GET", b"/health/123"), Route::Unmatched);
    assert_eq!(route_request(b"POST", b"/health/123"), Route::Unmatched);
    assert_eq!(route_request(b"PUT", b"/health"), Route::Unmatched);
    assert_eq!(route_request(b"PUT", b"/health/"), Route::Unmatched);
    assert_eq!(route_request(b"PUT", b"/health/-1"), Route::Unmatched);
    assert_eq!(route_request(b"PUT", b"/health/4294967296"), Route::Unmatched);
    assert_eq!(route_request(b"DELETE", b"/health/1x"), Route::Unmatched);
    assert_eq!(route_request(b"GET", b"/"), Route::Unmatched);
    assert_eq!(route_request(b"get", b"/health"), Route::Unmatched);
}
