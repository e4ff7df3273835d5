//! The library's error type.
use vstd::prelude::*;

use crate::text::concat;

verus! {

/// An error of the DNS manager. Each variant carries a human-readable detail.
#[derive(Debug, Clone, PartialEq, Eq)]
pub enum AppError {
    Config(String),
    Validation(String),
    Command(String),
    Io(String),
    Serde(String),
    Unsupported(String),
    ElevationRequired(String),
    Timeout(String),
    Other(String),
}

pub type AppResult<T> = Result<T, AppError>;

/// The text that prefixes the detail of each variant when the error is shown.
pub open spec fn error_prefix(e: AppError) -> Seq<char> {
    match e {
        AppError::Config(_) => "Configuration error: "@,
        AppError::Validation(_) => "Validation error: "@,
        AppError::Command(_) => "Command execution failed: "@,
        AppError::Io(_) => "IO error: "@,
        AppError::Serde(_) => "Serialization error: "@,
        AppError::Unsupported(_) => "Operation not supported on this platform: "@,
        AppError::ElevationRequired(_) => "Elevation required: "@,
        AppError::Timeout(_) => "Timeout waiting for command: "@,
        AppError::Other(_) => ""@,
    }
}

/// The detail carried by an error.
pub open spec fn error_detail(e: AppError) -> Seq<char> {
    match e {
        AppError::Config(m) => m@,
        AppError::Validation(m) => m@,
        AppError::Command(m) => m@,
        AppError::Io(m) => m@,
        AppError::Serde(m) => m@,
        AppError::Unsupported(m) => m@,
        AppError::ElevationRequired(m) => m@,
        AppError::Timeout(m) => m@,
        AppError::Other(m) => m@,
    }
}

/// The text of an error as it is shown to the user.
pub open spec fn error_text(e: AppError) -> Seq<char> {
    error_prefix(e) + error_detail(e)
}

/// A validation error whose detail is `m`.
pub open spec fn is_validation(r: AppResult<()>, m: Seq<char>) -> bool {
    r matches Err(AppError::Validation(d)) && d@ == m
}

/// A validation error whose detail is `m`, for a result of any type.
pub open spec fn is_validation_err<T>(r: AppResult<T>, m: Seq<char>) -> bool {
    r matches Err(AppError::Validation(d)) && d@ == m
}

/// `r` is what a check that found `c` returns: success when `c` is `None`,
/// else a validation error with detail `c`.
pub open spec fn outcome(r: AppResult<()>, c: Option<Seq<char>>) -> bool {
    match c {
        None => r is Ok,
        Some(m) => is_validation(r, m),
    }
}

impl AppError {
    /// The text of the error as it is shown to the user.
    pub fn message(&self) -> (r: String)
        ensures
            r@ == error_text(*self),
    {
        match self {
            AppError::Config(m) => concat("Configuration error: ", m.as_str()),
            AppError::Validation(m) => concat("Validation error: ", m.as_str()),
            AppError::Command(m) => concat("Command execution failed: ", m.as_str()),
            AppError::Io(m) => concat("IO error: ", m.as_str()),
            AppError::Serde(m) => concat("Serialization error: ", m.as_str()),
            AppError::Unsupported(m) => concat(
                "Operation not supported on this platform: ",
                m.as_str(),
            ),
            AppError::ElevationRequired(m) => concat("Elevation required: ", m.as_str()),
            AppError::Timeout(m) => concat("Timeout waiting for command: ", m.as_str()),
            AppError::Other(m) => {
                let r = m.clone();
                assert(""@ + m@ =~= m@) by {
                    reveal_strlit("");
                }
                r
            },
        }
    }

    /// A validation error with the given detail.
    pub fn validation(m: &str) -> (r: AppError)
        ensures
            r matches AppError::Validation(d) && d@ == m@,
    {
        AppError::Validation(m.to_owned())
    }

    /// A configuration error with the given detail.
    pub fn config(m: &str) -> (r: AppError)
        ensures
            r matches AppError::Config(d) && d@ == m@,
    {
        AppError::Config(m.to_owned())
    }

    /// A command error with the given detail.
    pub fn command(m: &str) -> (r: AppError)
        ensures
            r matches AppError::Command(d) && d@ == m@,
    {
        AppError::Command(m.to_owned())
    }
}

} // verus!
