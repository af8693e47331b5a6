//! The error taxonomy of the service: every request-level failure is one of
//! three recoverable errors, each mapped to an HTTP status and a JSON body.

use vstd::prelude::*;
use crate::json::json_string_of;

verus! {

/// A request-level failure.
#[derive(Clone, Copy, Debug, PartialEq, Eq, Structural)]
pub enum ApiError {
    /// The id names no row.
    NotFound,
    /// The body or a path parameter is missing or malformed.
    ValidationError,
    /// Storage cannot take the request.
    StorageUnavailable,
}

/// The HTTP status each error maps to.
pub open spec fn error_status(e: ApiError) -> int {
    match e {
        ApiError::NotFound => 404,
        ApiError::ValidationError => 400,
        ApiError::StorageUnavailable => 503,
    }
}

/// The message each error carries.
pub open spec fn error_message(e: ApiError) -> Seq<char> {
    match e {
        ApiError::NotFound => seq!['n', 'o', 't', ' ', 'f', 'o', 'u', 'n', 'd'],
        ApiError::ValidationError => seq![
            'v',
            'a',
            'l',
            'i',
            'd',
            'a',
            't',
            'i',
            'o',
            'n',
            ' ',
            'e',
            'r',
            'r',
            'o',
            'r',
        ],
        ApiError::StorageUnavailable => seq![
            's',
            't',
            'o',
            'r',
            'a',
            'g',
            'e',
            ' ',
            'u',
            'n',
            'a',
            'v',
            'a',
            'i',
            'l',
            'a',
            'b',
            'l',
            'e',
        ],
    }
}

/// The JSON body of an error response: `{"error":<message>}`.
pub open spec fn error_body(e: ApiError) -> Seq<char> {
    seq!['{', '"', 'e', 'r', 'r', 'o', 'r', '"', ':'] + json_string_of(error_message(e)) + seq!['}']
}

impl ApiError {
    /// The HTTP status this error maps to.
    pub fn status(&self) -> (s: u16)
        ensures
            s as int == error_status(*self),
    {
        match self {
            ApiError::NotFound => 404,
            ApiError::ValidationError => 400,
            ApiError::StorageUnavailable => 503,
        }
    }

    /// The message this error carries.
    pub fn message(&self) -> (m: &'static str)
        ensures
            m@ == error_message(*self),
    {
        match self {
            ApiError::NotFound => {
                let m = "not found";
                proof {
                    reveal_strlit("not found");
                    assert(m@ =~= error_message(ApiError::NotFound));
                }
                m
            },
            ApiError::ValidationError => {
                let m = "validation error";
                proof {
                    reveal_strlit("validation error");
                    assert(m@ =~= error_message(ApiError::ValidationError));
                }
                m
            },
            ApiError::StorageUnavailable => {
                let m = "storage unavailable";
                proof {
                    reveal_strlit("storage unavailable");
                    assert(m@ =~= error_message(ApiError::StorageUnavailable));
                }
                m
            },
        }
    }
}

} // verus!
