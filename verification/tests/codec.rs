use todo_api::error::ApiError;
use todo_api::handler::error_response;
use todo_api::json::encode_json_string;
use todo_api::parse::{parse_id, parse_todo_body};
use todo_api::store::TodoStore;
use todo_api::todo::Todo;

#[test]
fn encodes_plain_strings() {
    assert_eq!(encode_json_string("buy milk"), "\"buy milk\"");
    assert_eq!(encode_json_string(""), "\"\"");
}

#[test]
fn encodes_escapes() {
    assert_eq!(encode_json_string("a\"b"), "\"a\\\"b\"");
    assert_eq!(encode_json_string("a\\b"), "\"a\\\\b\"");
    assert_eq!(encode_json_string("a\nb\tc\rd"), "\"a\\nb\\tc\\rd\"");
    assert_eq!(encode_json_string("\u{8}\u{c}"), "\"\\b\\f\"");
    assert_eq!(encode_json_string("\u{1}\u{1f}"), "\"\\u0001\\u001f\"");
    assert_eq!(encode_json_string("héllo"), "\"héllo\"");
}

#[test]
fn todo_serializes_with_defaults() {
    let t = Todo::new(String::from("x"), None, None);
    assert_eq!(t.to_json_str(), "{\"completed\":false,\"title\":\"x\",\"url\":\"\"}");
    let u = Todo::new(String::from("x"), Some(true), Some(String::from("u")));
    assert_eq!(u.to_json_str(), "{\"completed\":true,\"title\":\"x\",\"url\":\"u\"}");
}

#[test]
fn body_escapes_round_trip() {
    let t = parse_todo_body("{\"title\":\"a\\\"b\\\\c\\nd\\te\\/f\\bg\\fh\\ri\"}").unwrap();
    assert_eq!(t.title, "a\"b\\c\nd\te/f\u{8}g\u{c}h\ri");
    assert_eq!(t.completed, None);
    assert_eq!(t.url, None);
}

#[test]
fn body_members_in_any_order() {
    let t = parse_todo_body("{\"completed\":true,\"url\":\"u\",\"title\":\"t\"}").unwrap();
    assert_eq!(t.title, "t");
    assert_eq!(t.completed, Some(true));
    assert_eq!(t.url, Some(String::from("u")));
}

#[test]
fn body_refusals() {
    assert!(parse_todo_body("").is_none());
    assert!(parse_todo_body("{}").is_none());
    assert!(parse_todo_body("[]").is_none());
    assert!(parse_todo_body("{\"title\":\"a\"} x").is_none());
    assert!(parse_todo_body("{\"title\":\"a\",}").is_none());
    assert!(parse_todo_body("{\"title\":\"a\"").is_none());
    assert!(parse_todo_body("{\"completed\":\"yes\",\"title\":\"a\"}").is_none());
    assert!(parse_todo_body("{\"title\":\"a\nb\"}").is_none());
}

#[test]
fn body_unicode_escapes() {
    let t = parse_todo_body("{\"title\":\"a\\u0041\"}").unwrap();
    assert_eq!(t.title, "aA");
    let t = parse_todo_body("{\"title\":\"caf\\u00e9\"}").unwrap();
    assert_eq!(t.title, "café");
    let t = parse_todo_body("{\"title\":\"\\u0001\"}").unwrap();
    assert_eq!(t.title, "\u{1}");
    let t = parse_todo_body("{\"title\":\"\\uD83D\\uDE00\"}").unwrap();
    assert_eq!(t.title, "\u{1F600}");
    let t = parse_todo_body("{\"title\":\"\\u2603\"}").unwrap();
    assert_eq!(t.title, "☃");
}

#[test]
fn body_unicode_escape_refusals() {
    assert!(parse_todo_body("{\"title\":\"\\u12\"}").is_none());
    assert!(parse_todo_body("{\"title\":\"\\u00g1\"}").is_none());
    assert!(parse_todo_body("{\"title\":\"\\uDE00\"}").is_none());
    assert!(parse_todo_body("{\"title\":\"\\uD83Dx\"}").is_none());
    assert!(parse_todo_body("{\"title\":\"\\uD83D\\u0041\"}").is_none());
    assert!(parse_todo_body("{\"title\":\"\\x41\"}").is_none());
}

#[test]
fn body_duplicate_member_takes_last_value() {
    let t = parse_todo_body("{\"title\":\"a\",\"title\":\"b\"}").unwrap();
    assert_eq!(t.title, "b");
    let t = parse_todo_body("{\"completed\":true,\"title\":\"a\",\"completed\":false}").unwrap();
    assert_eq!(t.completed, Some(false));
}

#[test]
fn decode_after_encode_is_identity() {
    let cases = vec![
        Todo::new(String::from("buy milk"), None, None),
        Todo::new(String::from("a\"b\\c\nd\u{1}e"), Some(true), Some(String::from("http://x"))),
        Todo::new(String::from("\u{8}\u{c}\u{1f}"), Some(false), None),
        Todo::new(String::from("café ☃"), None, Some(String::from(""))),
    ];
    for t in cases {
        let back = parse_todo_body(&t.to_json_str()).unwrap();
        assert_eq!(back.title, t.title);
        assert_eq!(back.completed, Some(t.completed.unwrap_or(false)));
        assert_eq!(back.url, Some(t.url.unwrap_or(String::new())));
    }
}

#[test]
fn id_parses_digits_only() {
    assert_eq!(parse_id("1"), Some(1));
    assert_eq!(parse_id("0042"), Some(42));
    assert_eq!(parse_id("9223372036854775807"), Some(i64::MAX));
    assert_eq!(parse_id("9223372036854775808"), None);
    assert_eq!(parse_id("99999999999999999999999"), None);
    assert_eq!(parse_id(""), None);
    assert_eq!(parse_id("-1"), None);
    assert_eq!(parse_id("+1"), None);
    assert_eq!(parse_id("1a"), None);
    assert_eq!(parse_id(" 1"), None);
}

#[test]
fn error_responses_are_fixed() {
    let n = error_response(ApiError::NotFound);
    assert_eq!(n.status, 404);
    assert_eq!(n.body, "{\"error\":\"not found\"}");
    let v = error_response(ApiError::ValidationError);
    assert_eq!(v.status, 400);
    assert_eq!(v.body, "{\"error\":\"validation error\"}");
    let s = error_response(ApiError::StorageUnavailable);
    assert_eq!(s.status, 503);
    assert_eq!(s.body, "{\"error\":\"storage unavailable\"}");
    assert_eq!(n.headers.len(), 3);
}

#[test]
fn store_assigns_serial_ids() {
    let mut st = TodoStore::new();
    let a = st.create(Todo::new(String::from("a"), None, None)).unwrap();
    let b = st.create(Todo::new(String::from("b"), Some(true), None)).unwrap();
    assert_eq!(a, 1);
    assert_eq!(b, 2);
    assert_eq!(st.get(1).unwrap().title, "a");
    assert_eq!(st.get(2).unwrap().completed, Some(true));
    assert!(st.get(3).is_none());
    st.truncate();
    assert!(st.get(1).is_none());
    assert_eq!(st.list_json(), "[]");
}

#[test]
fn store_lists_in_insertion_order() {
    let mut st = TodoStore::new();
    st.create(Todo::new(String::from("a"), None, None)).unwrap();
    st.create(Todo::new(String::from("b"), None, Some(String::from("u")))).unwrap();
    assert_eq!(
        st.list_json(),
        "[{\"completed\":false,\"title\":\"a\",\"url\":\"\"},{\"completed\":false,\"title\":\"b\",\"url\":\"u\"}]"
    );
}
