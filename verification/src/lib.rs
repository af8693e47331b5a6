//! A verified core for a todo-list REST backend.
//!
//! The library models the one resource the service exposes — a `Todo` with a
//! required title, an optional completion flag and an optional reference URL —
//! and implements, with proofs:
//!
//! * the JSON wire format of a todo and of a list of todos (`json`),
//! * parsing of request bodies and of `:id` path segments (`parse`),
//! * an in-memory todo store with the semantics of the backing table (`store`),
//! * the request-to-response mapping for every endpoint, including the
//!   fixed CORS headers carried by every response (`handler`),
//! * the laws the service obeys, as proved statements (`laws`).
//!
//! Everything that touches the network — the HTTP server and the SQL
//! connection pool — lives outside the library and hands it plain values.

pub mod error;
pub mod handler;
pub mod json;
pub mod laws;
pub mod parse;
pub mod store;
pub mod todo;
