//! How the HTTP API answers errors: the status for each kind, and a message
//! that never carries internal details.

use vstd::prelude::*;

use crate::error::{AppError, AppResult};
use crate::text::chars_of;

verus! {

/// The longest search query the API accepts, in characters.
pub const MAX_SEARCH_QUERY_CHARS: usize = 512;

/// The status and message an error is answered with.
pub open spec fn error_response_spec(e: AppError) -> (u16, Seq<char>) {
    match e {
        AppError::NotFound => (404, "Not found"@),
        AppError::Invalid(m) => (400, m@),
        AppError::Conflict(m) => (409, m@),
        AppError::Internal(_) => (500, "Internal server error"@),
    }
}

/// The status and message an error is answered with.
pub fn error_response(error: AppError) -> (r: (u16, String))
    ensures
        (r.0, r.1@) == error_response_spec(error),
{
    match error {
        AppError::NotFound => (404, "Not found".to_string()),
        AppError::Invalid(message) => (400, message),
        AppError::Conflict(message) => (409, message),
        AppError::Internal(_) => (500, "Internal server error".to_string()),
    }
}

/// An internal error is answered with the same text whatever its details.
pub proof fn lemma_internal_details_hidden(a: String, b: String)
    ensures
        error_response_spec(AppError::Internal(a)) == error_response_spec(AppError::Internal(b)),
{
}

/// Refuses search queries longer than 512 characters.
pub fn check_search_query(q: &str) -> (r: AppResult<()>)
    ensures
        r is Ok <==> q@.len() <= 512,
        r matches Err(e) ==> (e matches AppError::Invalid(m) && m@ == "query too long"@),
{
    let cs = chars_of(q);
    if cs.len() > MAX_SEARCH_QUERY_CHARS {
        Err(AppError::invalid("query too long"))
    } else {
        Ok(())
    }
}

}
