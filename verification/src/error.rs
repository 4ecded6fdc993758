//! What can go wrong while a query runs, and the text that a client is sent
//! for it.

use crate::authenticator::CursorError;
use crate::database::ProviderError;
use vstd::prelude::*;
use vstd::string::*;

verus! {

/// What ended an operation of the host, or the whole query.
#[derive(Clone, Debug)]
pub enum QueryError {
    /// A script presented a cursor that this request did not seal.
    InvalidCursor,
    /// The data source failed; the text is its report.
    Provider(String),
    /// The engine reported an error in the script; the text is its report.
    Script(String),
    /// The script used more memory or time than it was given.
    LimitExceeded(String),
    /// The host itself failed, outside the script's doing.
    Internal(String),
}

impl QueryError {
    /// The text that stands for this error.
    pub open spec fn text(self) -> Seq<char> {
        match self {
            QueryError::InvalidCursor => "InvalidCursor"@,
            QueryError::Provider(report) => "ProviderError: "@ + report@,
            QueryError::Script(report) => "ScriptError: "@ + report@,
            QueryError::LimitExceeded(report) => "LimitExceeded: "@ + report@,
            QueryError::Internal(report) => "InternalError: "@ + report@,
        }
    }

    /// Writes the text that stands for this error.
    pub fn message(&self) -> (text: String)
        ensures
            text@ == self.text(),
    {
        match self {
            QueryError::InvalidCursor => String::from_str("InvalidCursor"),
            QueryError::Provider(report) => String::from_str("ProviderError: ").concat(
                report.as_str(),
            ),
            QueryError::Script(report) => String::from_str("ScriptError: ").concat(
                report.as_str(),
            ),
            QueryError::LimitExceeded(report) => String::from_str("LimitExceeded: ").concat(
                report.as_str(),
            ),
            QueryError::Internal(report) => String::from_str("InternalError: ").concat(
                report.as_str(),
            ),
        }
    }

    /// The error that ends a script which the engine stopped with `report`:
    /// the limit on time if the request's timer had fired by then, and an
    /// error of the script otherwise.
    pub fn script_failure(report: String, timed_out: bool) -> (e: QueryError)
        ensures
            e == if timed_out {
                QueryError::LimitExceeded(report)
            } else {
                QueryError::Script(report)
            },
    {
        if timed_out {
            QueryError::LimitExceeded(report)
        } else {
            QueryError::Script(report)
        }
    }

    /// The error that a turned-down cursor ends an operation with.
    pub fn from_cursor_error(error: CursorError) -> (e: QueryError)
        ensures
            e == QueryError::InvalidCursor,
    {
        match error {
            CursorError::InvalidCursor => QueryError::InvalidCursor,
        }
    }

    /// The error that a failure of the data source ends an operation with.
    pub fn from_provider_error(error: ProviderError) -> (e: QueryError)
        ensures
            e == match error {
                ProviderError::Unavailable(report) => QueryError::Provider(report),
            },
    {
        match error {
            ProviderError::Unavailable(report) => QueryError::Provider(report),
        }
    }
}

} // verus!
