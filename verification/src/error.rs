use vstd::prelude::*;

use crate::db::sql::SqlError;

verus! {

/// The error type shared by every service of the library.
#[derive(Debug, Clone, PartialEq, Eq)]
pub enum AppError {
    NotFound,
    Invalid(String),
    Conflict(String),
    Internal(String),
}

pub type AppResult<T> = Result<T, AppError>;

/// The message shown to a user for an error: internal details never leave the library.
pub open spec fn ipc_message_of(e: AppError) -> Seq<char> {
    match e {
        AppError::NotFound => "The requested item was not found"@,
        AppError::Invalid(m) => m@,
        AppError::Conflict(m) => m@,
        AppError::Internal(_) => "An internal error occurred"@,
    }
}

/// `a` is the error that a failed SQLite call `e` maps to: a missing row is
/// "not found", a constraint violation a conflict, anything else internal.
pub open spec fn maps_sql_error(e: SqlError, a: AppError) -> bool {
    match e {
        SqlError::NoRows => a == AppError::NotFound,
        SqlError::ConstraintViolation => a matches AppError::Conflict(m)
            && m@ == "The requested change conflicts with existing data"@,
        SqlError::Other(m) => a == AppError::Internal(m),
    }
}

impl AppError {
    pub fn invalid(message: &str) -> (e: AppError)
        ensures
            e matches AppError::Invalid(m) && m@ == message@,
    {
        AppError::Invalid(message.to_string())
    }

    pub fn internal(message: &str) -> (e: AppError)
        ensures
            e matches AppError::Internal(m) && m@ == message@,
    {
        AppError::Internal(message.to_string())
    }

    pub fn from_sql(e: SqlError) -> (a: AppError)
        ensures
            maps_sql_error(e, a),
    {
        match e {
            SqlError::NoRows => AppError::NotFound,
            SqlError::ConstraintViolation => AppError::Conflict(
                "The requested change conflicts with existing data".to_string(),
            ),
            SqlError::Other(m) => AppError::Internal(m),
        }
    }

    pub fn ipc_message(&self) -> (m: String)
        ensures
            m@ == ipc_message_of(*self),
    {
        match self {
            AppError::NotFound => "The requested item was not found".to_string(),
            AppError::Invalid(message) => message.clone(),
            AppError::Conflict(message) => message.clone(),
            AppError::Internal(_) => "An internal error occurred".to_string(),
        }
    }
}

}
