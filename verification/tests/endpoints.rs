use todo_api::handler::{handle, Method, Response};
use todo_api::store::TodoStore;

fn assert_cors(r: &Response) {
    assert_eq!(r.headers.len(), 3);
    assert_eq!(r.headers[0].0, "Access-Control-Allow-Origin");
    assert_eq!(r.headers[0].1, "*");
    assert_eq!(r.headers[1].0, "Access-Control-Allow-Headers");
    assert_eq!(r.headers[1].1, "content-type, accept");
    assert_eq!(r.headers[2].0, "Access-Control-Allow-Methods");
    assert_eq!(r.headers[2].1, "OPTIONS, GET, POST, DELETE");
}

#[test]
fn root_greets() {
    let mut st = TodoStore::new();
    let r = handle(&mut st, Method::Get, "/", "");
    assert_eq!(r.status, 200);
    assert_eq!(r.body, "hi");
}

#[test]
fn create_then_list_includes_title() {
    let mut st = TodoStore::new();
    let r = handle(&mut st, Method::Post, "/todos", "{\"title\":\"buy milk\"}");
    assert_eq!(r.status, 200);
    assert_eq!(r.body, "{\"completed\":false,\"title\":\"buy milk\",\"url\":\"\"}");
    let l = handle(&mut st, Method::Get, "/todos", "");
    assert_eq!(l.status, 200);
    assert_eq!(l.body, "[{\"completed\":false,\"title\":\"buy milk\",\"url\":\"\"}]");
    assert!(l.body.contains("buy milk"));
}

#[test]
fn truncate_then_list_is_empty() {
    let mut st = TodoStore::new();
    handle(&mut st, Method::Post, "/todos", "{\"title\":\"a\"}");
    handle(&mut st, Method::Post, "/todos", "{\"title\":\"b\"}");
    let d = handle(&mut st, Method::Delete, "/todos", "");
    assert_eq!(d.status, 200);
    assert_eq!(d.body, "");
    let l = handle(&mut st, Method::Get, "/todos", "");
    assert_eq!(l.status, 200);
    assert_eq!(l.body, "[]");
}

#[test]
fn get_fresh_id_returns_created_title() {
    let mut st = TodoStore::new();
    let c = handle(
        &mut st,
        Method::Post,
        "/todos",
        "{\"title\":\"walk the dog\",\"completed\":true,\"url\":\"http://x/1\"}",
    );
    assert_eq!(c.status, 200);
    let g = handle(&mut st, Method::Get, "/todos/1", "");
    assert_eq!(g.status, 200);
    assert_eq!(g.body, "{\"completed\":true,\"title\":\"walk the dog\",\"url\":\"http://x/1\"}");
}

#[test]
fn every_response_carries_cors_headers() {
    let mut st = TodoStore::new();
    let a = handle(&mut st, Method::Get, "/", "");
    assert_cors(&a);
    let b = handle(&mut st, Method::Get, "/todos", "");
    assert_cors(&b);
    let c = handle(&mut st, Method::Post, "/todos", "{\"title\":\"t\"}");
    assert_cors(&c);
    let d = handle(&mut st, Method::Get, "/todos/1", "");
    assert_cors(&d);
    let e = handle(&mut st, Method::Delete, "/todos", "");
    assert_cors(&e);
    let f = handle(&mut st, Method::Get, "/nowhere", "");
    assert_cors(&f);
    let g = handle(&mut st, Method::Post, "/todos", "not json");
    assert_cors(&g);
    let h = handle(&mut st, Method::Options, "/todos", "");
    assert_cors(&h);
}

#[test]
fn omitted_completed_reads_false() {
    let mut st = TodoStore::new();
    handle(&mut st, Method::Post, "/todos", "{\"title\":\"rest\"}");
    let g = handle(&mut st, Method::Get, "/todos/1", "");
    assert_eq!(g.status, 200);
    assert_eq!(g.body, "{\"completed\":false,\"title\":\"rest\",\"url\":\"\"}");
}

#[test]
fn missing_title_is_client_error() {
    let mut st = TodoStore::new();
    let r = handle(&mut st, Method::Post, "/todos", "{\"completed\":true}");
    assert_eq!(r.status, 400);
    assert_eq!(r.body, "{\"error\":\"validation error\"}");
    let l = handle(&mut st, Method::Get, "/todos", "");
    assert_eq!(l.body, "[]");
}

#[test]
fn malformed_body_is_client_error() {
    let mut st = TodoStore::new();
    let r = handle(&mut st, Method::Post, "/todos", "not json at all");
    assert_eq!(r.status, 400);
    assert_eq!(r.body, "{\"error\":\"validation error\"}");
}

#[test]
fn unknown_member_is_client_error() {
    let mut st = TodoStore::new();
    let r = handle(&mut st, Method::Post, "/todos", "{\"title\":\"a\",\"owner\":\"b\"}");
    assert_eq!(r.status, 400);
}

#[test]
fn duplicate_member_takes_last_value() {
    let mut st = TodoStore::new();
    let r = handle(&mut st, Method::Post, "/todos", "{\"title\":\"a\",\"title\":\"b\"}");
    assert_eq!(r.status, 200);
    assert_eq!(r.body, "{\"completed\":false,\"title\":\"b\",\"url\":\"\"}");
}

#[test]
fn escaped_title_round_trips_through_create() {
    let mut st = TodoStore::new();
    let r = handle(&mut st, Method::Post, "/todos", "{\"title\":\"caf\\u00e9 \\u0001\"}");
    assert_eq!(r.status, 200);
    assert_eq!(r.body, "{\"completed\":false,\"title\":\"café \\u0001\",\"url\":\"\"}");
    let again = handle(&mut st, Method::Post, "/todos", &r.body);
    assert_eq!(again.status, 200);
    assert_eq!(again.body, r.body);
}

#[test]
fn null_title_is_client_error() {
    let mut st = TodoStore::new();
    let r = handle(&mut st, Method::Post, "/todos", "{\"title\":null}");
    assert_eq!(r.status, 400);
}

#[test]
fn null_optional_members_are_accepted() {
    let mut st = TodoStore::new();
    let r = handle(
        &mut st,
        Method::Post,
        "/todos",
        " { \"url\" : null , \"title\" : \"tea\" , \"completed\" : null } ",
    );
    assert_eq!(r.status, 200);
    assert_eq!(r.body, "{\"completed\":false,\"title\":\"tea\",\"url\":\"\"}");
}

#[test]
fn absent_id_is_not_found() {
    let mut st = TodoStore::new();
    let r = handle(&mut st, Method::Get, "/todos/999", "");
    assert_eq!(r.status, 404);
    assert_eq!(r.body, "{\"error\":\"not found\"}");
}

#[test]
fn malformed_id_is_client_error() {
    let mut st = TodoStore::new();
    let r = handle(&mut st, Method::Get, "/todos/abc", "");
    assert_eq!(r.status, 400);
    let s = handle(&mut st, Method::Get, "/todos/-5", "");
    assert_eq!(s.status, 400);
    let t = handle(&mut st, Method::Get, "/todos/", "");
    assert_eq!(t.status, 400);
    let u = handle(&mut st, Method::Get, "/todos/99999999999999999999", "");
    assert_eq!(u.status, 400);
}

#[test]
fn unrouted_requests_are_not_found() {
    let mut st = TodoStore::new();
    assert_eq!(handle(&mut st, Method::Get, "/nowhere", "").status, 404);
    assert_eq!(handle(&mut st, Method::Post, "/", "").status, 404);
    assert_eq!(handle(&mut st, Method::Delete, "/todos/1", "").status, 404);
    assert_eq!(handle(&mut st, Method::Options, "/todos", "").status, 404);
    assert_eq!(handle(&mut st, Method::Post, "/todos/1", "{\"title\":\"x\"}").status, 404);
}

#[test]
fn truncation_does_not_reset_ids() {
    let mut st = TodoStore::new();
    handle(&mut st, Method::Post, "/todos", "{\"title\":\"first\"}");
    handle(&mut st, Method::Delete, "/todos", "");
    handle(&mut st, Method::Post, "/todos", "{\"title\":\"second\"}");
    let one = handle(&mut st, Method::Get, "/todos/1", "");
    assert_eq!(one.status, 404);
    let two = handle(&mut st, Method::Get, "/todos/2", "");
    assert_eq!(two.status, 200);
    assert_eq!(two.body, "{\"completed\":false,\"title\":\"second\",\"url\":\"\"}");
}

#[test]
fn listing_keeps_insertion_order() {
    let mut st = TodoStore::new();
    handle(&mut st, Method::Post, "/todos", "{\"title\":\"a\"}");
    handle(&mut st, Method::Post, "/todos", "{\"title\":\"b\",\"completed\":true}");
    let l = handle(&mut st, Method::Get, "/todos", "");
    assert_eq!(
        l.body,
        "[{\"completed\":false,\"title\":\"a\",\"url\":\"\"},{\"completed\":true,\"title\":\"b\",\"url\":\"\"}]"
    );
}
