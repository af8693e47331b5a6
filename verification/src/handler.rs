//! The request-to-response mapping: routing, the one resource's four
//! operations, the error responses, and the fixed CORS headers that every
//! response carries.

use vstd::prelude::*;
use vstd::string::StrSliceExecFns;
use vstd::string::StringExecFns;
use crate::error::{error_body, error_status, ApiError};
use crate::json::{json_of_todo, json_of_todos};
use crate::parse::{parse_id, parse_todo_body, spec_parse_id, spec_parse_todo, str_eq};
use crate::store::{find_todo, store_wf, todos_of, RowView, StoreView, TodoStore};

verus! {

/// An HTTP method the service distinguishes.
#[derive(Clone, Copy, Debug, PartialEq, Eq, Structural)]
pub enum Method {
    Options,
    Get,
    Post,
    Delete,
}

/// What the service answers: a status, the response headers, a body.
pub struct Response {
    pub status: u16,
    pub headers: Vec<(String, String)>,
    pub body: String,
}

pub open spec fn headers_view(hs: Seq<(String, String)>) -> Seq<(Seq<char>, Seq<char>)> {
    hs.map_values(|p: (String, String)| (p.0@, p.1@))
}

/// The three fixed CORS headers every response carries.
pub open spec fn cors_headers() -> Seq<(Seq<char>, Seq<char>)> {
    seq![
        (("Access-Control-Allow-Origin")@, ("*")@),
        (("Access-Control-Allow-Headers")@, ("content-type, accept")@),
        (("Access-Control-Allow-Methods")@, ("OPTIONS, GET, POST, DELETE")@),
    ]
}

/// The CORS header triple as name-value pairs.
pub fn cors_header_list() -> (r: Vec<(String, String)>)
    ensures
        headers_view(r@) == cors_headers(),
{
    let mut v: Vec<(String, String)> = Vec::new();
    v.push((String::from_str("Access-Control-Allow-Origin"), String::from_str("*")));
    v.push(
        (String::from_str("Access-Control-Allow-Headers"), String::from_str("content-type, accept")),
    );
    v.push(
        (
            String::from_str("Access-Control-Allow-Methods"),
            String::from_str("OPTIONS, GET, POST, DELETE"),
        ),
    );
    proof {
        assert(headers_view(v@) =~= cors_headers());
    }
    v
}

/// The error response for a failure: its status, its JSON body, the CORS
/// headers.
pub fn error_response(e: ApiError) -> (r: Response)
    ensures
        r.status as int == error_status(e),
        r.body@ == error_body(e),
        headers_view(r.headers@) == cors_headers(),
{
    let mut body = String::new();
    body.append("{\"error\":");
    proof {
        reveal_strlit("{\"error\":");
        assert(body@ =~= seq!['{', '"', 'e', 'r', 'r', 'o', 'r', '"', ':']);
    }
    let em = crate::json::encode_json_string(e.message());
    body.append(em.as_str());
    body.append("}");
    proof {
        reveal_strlit("}");
        assert(body@ =~= error_body(e));
    }
    Response { status: e.status(), headers: cors_header_list(), body }
}

pub open spec fn root_path() -> Seq<char> {
    seq!['/']
}

pub open spec fn todos_path() -> Seq<char> {
    seq!['/', 't', 'o', 'd', 'o', 's']
}

pub open spec fn todos_prefix() -> Seq<char> {
    seq!['/', 't', 'o', 'd', 'o', 's', '/']
}

pub open spec fn hi_body() -> Seq<char> {
    seq!['h', 'i']
}

/// The root greeting body.
pub fn greeting() -> (r: String)
    ensures
        r@ == hi_body(),
{
    let r = String::from_str("hi");
    proof {
        reveal_strlit("hi");
        assert(r@ =~= hi_body());
    }
    r
}

/// Mathematical value of one request's effect: the store afterwards and
/// the status and body answered.
pub ghost struct Outcome {
    pub rows: Seq<RowView>,
    pub next_id: int,
    pub status: int,
    pub body: Seq<char>,
}

/// The outcome of a failed request: the store untouched, the error's
/// status and body.
pub open spec fn error_outcome(st: StoreView, e: ApiError) -> Outcome {
    Outcome { rows: st.rows, next_id: st.next_id, status: error_status(e), body: error_body(e) }
}

/// What every request does, by method and path:
///
/// * `GET /` greets;
/// * `GET /todos` lists every row as a JSON array, in insertion order;
/// * `POST /todos` parses the body, refuses it with the validation error
///   if it is not a well-formed create body, appends the todo under a
///   fresh id otherwise, and echoes the stored row;
/// * `DELETE /todos` removes every row and answers an empty body;
/// * `GET /todos/<id>` answers the row under the id, the validation error
///   for a malformed id, the not-found error for an absent one;
/// * anything else is not found.
pub open spec fn handle_spec(st: StoreView, m: Method, path: Seq<char>, body: Seq<char>) -> Outcome {
    if m == Method::Get && path == root_path() {
        Outcome { rows: st.rows, next_id: st.next_id, status: 200, body: hi_body() }
    } else if path == todos_path() {
        if m == Method::Get {
            Outcome {
                rows: st.rows,
                next_id: st.next_id,
                status: 200,
                body: json_of_todos(todos_of(st.rows)),
            }
        } else if m == Method::Post {
            match spec_parse_todo(body) {
                None => error_outcome(st, ApiError::ValidationError),
                Some(tv) => if st.next_id < i64::MAX {
                    Outcome {
                        rows: st.rows.push(RowView { id: st.next_id, todo: tv }),
                        next_id: st.next_id + 1,
                        status: 200,
                        body: json_of_todo(tv),
                    }
                } else {
                    error_outcome(st, ApiError::StorageUnavailable)
                },
            }
        } else if m == Method::Delete {
            Outcome {
                rows: Seq::<RowView>::empty(),
                next_id: st.next_id,
                status: 200,
                body: Seq::<char>::empty(),
            }
        } else {
            error_outcome(st, ApiError::NotFound)
        }
    } else if path.len() >= 7 && path.take(7) == todos_prefix() {
        if m == Method::Get {
            match spec_parse_id(path.skip(7)) {
                None => error_outcome(st, ApiError::ValidationError),
                Some(id) => match find_todo(st.rows, id) {
                    None => error_outcome(st, ApiError::NotFound),
                    Some(tv) => Outcome {
                        rows: st.rows,
                        next_id: st.next_id,
                        status: 200,
                        body: json_of_todo(tv),
                    },
                },
            }
        } else {
            error_outcome(st, ApiError::NotFound)
        }
    } else {
        error_outcome(st, ApiError::NotFound)
    }
}

/// Answers one request against the store, as [`handle_spec`] says, with
/// the CORS headers on every response.
pub fn handle(store: &mut TodoStore, m: Method, path: &str, body: &str) -> (r: Response)
    requires
        store_wf(old(store)@),
    ensures
        store_wf(final(store)@),
        headers_view(r.headers@) == cors_headers(),
        ({
            let o = handle_spec(old(store)@, m, path@, body@);
            &&& final(store)@.rows == o.rows
            &&& final(store)@.next_id == o.next_id
            &&& r.status as int == o.status
            &&& r.body@ == o.body
        }),
{
    let n = path.unicode_len();
    if m == Method::Get && str_eq(path, "/") {
        proof {
            reveal_strlit("/");
            assert(("/")@ =~= root_path());
        }
        return Response { status: 200, headers: cors_header_list(), body: greeting() };
    }
    proof {
        reveal_strlit("/");
        assert(("/")@ =~= root_path());
    }
    if str_eq(path, "/todos") {
        proof {
            reveal_strlit("/todos");
            assert(("/todos")@ =~= todos_path());
        }
        if m == Method::Get {
            let body_s = store.list_json();
            return Response { status: 200, headers: cors_header_list(), body: body_s };
        } else if m == Method::Post {
            match parse_todo_body(body) {
                None => {
                    return error_response(ApiError::ValidationError);
                },
                Some(t) => {
                    let body_s = t.to_json_str();
                    match store.create(t) {
                        Ok(_id) => {
                            return Response { status: 200, headers: cors_header_list(), body: body_s };
                        },
                        Err(e) => {
                            return error_response(e);
                        },
                    }
                },
            }
        } else if m == Method::Delete {
            store.truncate();
            return Response { status: 200, headers: cors_header_list(), body: String::new() };
        } else {
            return error_response(ApiError::NotFound);
        }
    }
    proof {
        reveal_strlit("/todos");
        assert(("/todos")@ =~= todos_path());
    }
    if n >= 7 {
        let pre = path.substring_char(0, 7);
        if str_eq(pre, "/todos/") {
            proof {
                reveal_strlit("/todos/");
                assert(("/todos/")@ =~= todos_prefix());
                assert(path@.take(7) =~= path@.subrange(0, 7));
            }
            if m == Method::Get {
                let seg = path.substring_char(7, n);
                proof {
                    assert(seg@ =~= path@.skip(7));
                }
                match parse_id(seg) {
                    None => {
                        return error_response(ApiError::ValidationError);
                    },
                    Some(id) => match store.get(id) {
                        None => {
                            return error_response(ApiError::NotFound);
                        },
                        Some(t) => {
                            let body_s = t.to_json_str();
                            return Response {
                                status: 200,
                                headers: cors_header_list(),
                                body: body_s,
                            };
                        },
                    },
                }
            } else {
                return error_response(ApiError::NotFound);
            }
        }
        proof {
            reveal_strlit("/todos/");
            assert(("/todos/")@ =~= todos_prefix());
            assert(path@.take(7) =~= path@.subrange(0, 7));
        }
    }
    error_response(ApiError::NotFound)
}

} // verus!
