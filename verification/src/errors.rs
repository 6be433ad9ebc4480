//! The library's error type. Each variant carries a human-readable detail
//! string; `message` renders the variant with its conventional prefix.

use vstd::prelude::*;
use vstd::string::*;

verus! {

#[derive(Debug, Clone)]
pub enum AppError {
    Io(String),
    Json(String),
    ChronoParse(String),
    Storage(String),
}

pub type AppResult<T> = Result<T, AppError>;

/// What `message` returns for each variant.
pub open spec fn error_message(e: AppError) -> Seq<char> {
    match e {
        AppError::Io(s) => "io: "@ + s@,
        AppError::Json(s) => "json: "@ + s@,
        AppError::ChronoParse(s) => "parse date: "@ + s@,
        AppError::Storage(s) => "storage: "@ + s@,
    }
}

impl AppError {
    /// Renders the error as the prefix of its kind followed by the detail.
    pub fn message(&self) -> (r: String)
        ensures
            r@ == error_message(*self),
    {
        match self {
            AppError::Io(s) => String::from_str("io: ").concat(s.as_str()),
            AppError::Json(s) => String::from_str("json: ").concat(s.as_str()),
            AppError::ChronoParse(s) => String::from_str("parse date: ").concat(s.as_str()),
            AppError::Storage(s) => String::from_str("storage: ").concat(s.as_str()),
        }
    }
}

} // verus!
