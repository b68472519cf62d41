//! Fresh identifiers and timestamps.

use vstd::prelude::*;

verus! {

/// `uuid::Uuid::new_v4`, written out by its `Display` impl: a random id in
/// the hyphenated form, which the uuid documentation gives as 36 characters.
/// Nothing else is stated: the value is random.
#[verifier::external_body]
pub(crate) fn new_id() -> (id: String)
    ensures
        id@.len() == 36,
{
    uuid::Uuid::new_v4().to_string()
}

/// `chrono::Utc::now`, written by `to_rfc3339`. The value depends on the
/// clock, so nothing is stated of it.
#[verifier::external_body]
pub(crate) fn now_rfc3339() -> (t: String) {
    chrono::Utc::now().to_rfc3339()
}

}
