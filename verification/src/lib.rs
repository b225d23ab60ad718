//! A small HTTP service as a library: three fixed routes behind a
//! cross-origin policy, written as functions from a request to the response
//! that it is owed.
//!
//! - `server`: the service as one function, `respond`.
//! - `routes`: the table of routes, its search, and the three handlers.
//! - `cors`: the cross-origin policy and the headers that it adds.
//! - `message`: requests and responses as plain values.
//! - `person`, `json`: the people of the service and their JSON text.
//! - `method`, `header`, `octets`: method names, header names and values,
//!   and byte strings.
//! - `laws`: what holds of `respond` for every request and every policy.
//!
//! A program that serves this over a socket reads the method, the path and
//! three headers of each request, calls `respond`, and writes the status,
//! the header lines and the body that come back.

pub mod cors;
pub mod header;
pub mod json;
pub mod laws;
pub mod message;
pub mod method;
pub mod octets;
pub mod person;
pub mod routes;
pub mod server;
