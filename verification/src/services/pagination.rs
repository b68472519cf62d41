use vstd::prelude::*;

use crate::error::{AppError, AppResult};

verus! {

pub const DEFAULT_PAGE_SIZE: i64 = 100;
pub const MAX_PAGE_SIZE: i64 = 500;
pub const MAX_SEARCH_RESULTS: i64 = 100;

/// A limit or offset as given, or its default.
pub open spec fn or_default(v: Option<i64>, d: i64) -> i64 {
    match v {
        Some(x) => x,
        None => d,
    }
}

/// The smaller of two values.
pub open spec fn min_i64(a: i64, b: i64) -> i64 {
    if a < b { a } else { b }
}

/// Checks a page request: the limit (default 100) must be at least 1 and is
/// capped at 500; the offset (default 0) must not be negative.
pub fn sanitize_pagination(limit: Option<i64>, offset: Option<i64>) -> (r: AppResult<(i64, i64)>)
    ensures
        or_default(limit, DEFAULT_PAGE_SIZE) < 1 ==> (r matches Err(AppError::Invalid(m)) && m@ == "limit must be at least 1"@),
        or_default(limit, DEFAULT_PAGE_SIZE) >= 1 && or_default(offset, 0) < 0
            ==> (r matches Err(AppError::Invalid(m)) && m@ == "offset must be at least 0"@),
        or_default(limit, DEFAULT_PAGE_SIZE) >= 1 && or_default(offset, 0) >= 0
            ==> r == Ok::<(i64, i64), AppError>((min_i64(or_default(limit, DEFAULT_PAGE_SIZE), MAX_PAGE_SIZE), or_default(offset, 0))),
{
    let limit = match limit {
        Some(l) => l,
        None => DEFAULT_PAGE_SIZE,
    };
    let offset = match offset {
        Some(o) => o,
        None => 0,
    };
    if limit < 1 {
        return Err(AppError::invalid("limit must be at least 1"));
    }
    if offset < 0 {
        return Err(AppError::invalid("offset must be at least 0"));
    }
    Ok((if limit < MAX_PAGE_SIZE { limit } else { MAX_PAGE_SIZE }, offset))
}

/// Checks a search limit: it (default 100) must be at least 1 and is capped at 100.
pub fn sanitize_search_limit(limit: Option<i64>) -> (r: AppResult<i64>)
    ensures
        or_default(limit, MAX_SEARCH_RESULTS) < 1 ==> (r matches Err(AppError::Invalid(m)) && m@ == "limit must be at least 1"@),
        or_default(limit, MAX_SEARCH_RESULTS) >= 1
            ==> r == Ok::<i64, AppError>(min_i64(or_default(limit, MAX_SEARCH_RESULTS), MAX_SEARCH_RESULTS)),
{
    let limit = match limit {
        Some(l) => l,
        None => MAX_SEARCH_RESULTS,
    };
    if limit < 1 {
        return Err(AppError::invalid("limit must be at least 1"));
    }
    Ok(if limit < MAX_SEARCH_RESULTS { limit } else { MAX_SEARCH_RESULTS })
}

/// Every page a request is granted holds between 1 and 500 items, and every
/// search between 1 and 100.
pub proof fn lemma_limits_are_bounded(limit: Option<i64>, offset: Option<i64>)
    ensures
        or_default(limit, DEFAULT_PAGE_SIZE) >= 1 ==>
            1 <= min_i64(or_default(limit, DEFAULT_PAGE_SIZE), MAX_PAGE_SIZE) <= MAX_PAGE_SIZE,
        or_default(limit, MAX_SEARCH_RESULTS) >= 1 ==>
            1 <= min_i64(or_default(limit, MAX_SEARCH_RESULTS), MAX_SEARCH_RESULTS) <= MAX_SEARCH_RESULTS,
{
}

}
