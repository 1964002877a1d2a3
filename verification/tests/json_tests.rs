use todolist::json::entries_json;
use todolist::json::entry_json;
use todolist::json::i32_json;
use todolist::json::i64_json;
use todolist::json::json_quote;
use todolist::store::Store;
use todolist::Entry;

#[test]
fn integers_render_in_decimal() {
    assert_eq!(i64_json(0), "0");
    assert_eq!(i64_json(7), "7");
    assert_eq!(i64_json(-5), "-5");
    assert_eq!(i64_json(1234567890123), "1234567890123");
    assert_eq!(i64_json(i64::MAX), "9223372036854775807");
    assert_eq!(i64_json(i64::MIN), "-9223372036854775808");
    assert_eq!(i32_json(i32::MAX), "2147483647");
    assert_eq!(i32_json(i32::MIN), "-2147483648");
}

#[test]
fn strings_are_quoted_and_escaped() {
    assert_eq!(json_quote(""), "\"\"");
    assert_eq!(json_quote("plain"), "\"plain\"");
    assert_eq!(json_quote("a\"b"), "\"a\\\"b\"");
    assert_eq!(json_quote("a\\b"), "\"a\\\\b\"");
    assert_eq!(json_quote("a\nb\tc\rd"), "\"a\\nb\\tc\\rd\"");
    assert_eq!(json_quote("\u{8}\u{c}"), "\"\\b\\f\"");
    assert_eq!(json_quote("\u{1}\u{1f}"), "\"\\u0001\\u001f\"");
    assert_eq!(json_quote("h\u{e9}llo \u{2713}"), "\"h\u{e9}llo \u{2713}\"");
}

#[test]
fn entry_renders_with_fixed_field_order() {
    let e = Entry {
        id: 3,
        date: -17,
        title: "a\"b".to_string(),
    };
    assert_eq!(entry_json(&e), "{\"id\":3,\"date\":-17,\"title\":\"a\\\"b\"}");
}

#[test]
fn listing_renders_as_comma_separated_array() {
    let entries = vec![
        Entry {
            id: 1,
            date: 2,
            title: "a".to_string(),
        },
        Entry {
            id: 3,
            date: 4,
            title: "b".to_string(),
        },
    ];
    assert_eq!(
        entries_json(&entries),
        "[{\"id\":1,\"date\":2,\"title\":\"a\"},{\"id\":3,\"date\":4,\"title\":\"b\"}]"
    );
}

#[test]
fn stored_entries_render_through_the_listing_route() {
    let mut s = Store::new();
    s.create("first".to_string(), 10).unwrap();
    s.create("second".to_string(), 20).unwrap();
    let response = todolist::services::get_entries(Ok(s.list()));
    assert_eq!(response.status, 200);
    assert_eq!(
        response.body,
        "[{\"id\":1,\"date\":10,\"title\":\"first\"},{\"id\":2,\"date\":20,\"title\":\"second\"}]"
    );
}
