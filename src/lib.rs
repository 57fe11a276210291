//! Pagination parameters for list endpoints and their rendering as query
//! predicates.
//!
//! - `filter`, `search`, `params`: the request model and its generic SQL and
//!   SurrealQL conditions.
//! - `cursor`: cursors and their opaque base64 tokens.
//! - `response`: page metadata and pages built from fetched rows.
//! - `builder`: fluent construction of requests.
//! - `parse`, `request`: requests read from query-string text.
//! - `http`: pagination headers and the `Link` header.
//! - `query`, `postgres`: SurrealQL statements and PostgreSQL queries with
//!   bound parameters.
//! - `text`, `json`, `number`: the character-level pieces these rest on.
use vstd::prelude::*;

pub mod builder;
pub mod condition;
pub mod cursor;
pub mod error;
pub mod filter;
pub mod http;
pub mod json;
pub mod number;
pub mod params;
pub mod parse;
pub mod postgres;
pub mod query;
pub mod request;
pub mod response;
pub mod search;
pub mod text;

verus! {

} // verus!
