//! Errors reported by the library and its adapters.
use vstd::prelude::*;

use crate::text::{decimal, push_u64};

verus! {

/// What went wrong in a pagination request.
#[derive(Debug, PartialEq)]
pub enum PaginatorError {
    /// A page number below 1.
    InvalidPage(u32),
    /// A page size outside `1..=100`.
    InvalidPerPage(u32),
    /// A response could not be encoded.
    SerializationError(String),
    /// Any other failure, described in words.
    Custom(String),
}

/// The message shown for an error.
pub open spec fn error_message(e: PaginatorError) -> Seq<char> {
    match e {
        PaginatorError::InvalidPage(p) => "Invalid page number: "@ + decimal(p as nat)
            + ". Page must be >= 1"@,
        PaginatorError::InvalidPerPage(p) => "Invalid per_page value: "@ + decimal(p as nat)
            + ". Must be between 1 and 100"@,
        PaginatorError::SerializationError(m) => "Serialization error: "@ + m@,
        PaginatorError::Custom(m) => m@,
    }
}

impl PaginatorError {
    /// The message shown for this error.
    pub fn message(&self) -> (r: String)
        ensures
            r@ == error_message(*self),
    {
        let mut r = String::new();
        match self {
            PaginatorError::InvalidPage(p) => {
                r.push_str("Invalid page number: ");
                push_u64(&mut r, *p as u64);
                r.push_str(". Page must be >= 1");
            },
            PaginatorError::InvalidPerPage(p) => {
                r.push_str("Invalid per_page value: ");
                push_u64(&mut r, *p as u64);
                r.push_str(". Must be between 1 and 100");
            },
            PaginatorError::SerializationError(m) => {
                r.push_str("Serialization error: ");
                r.push_str(m.as_str());
            },
            PaginatorError::Custom(m) => {
                r.push_str(m.as_str());
            },
        }
        assert(r@ =~= error_message(*self));
        r
    }
}

} // verus!
