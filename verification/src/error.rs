//! Errors that might happen in the crate.

use vstd::prelude::*;

use crate::fmt_num::{dec_rep, format_u64};

verus! {

/// What went wrong while building a query, talking to the database, or
/// decoding its answer.
#[derive(Debug, Clone, PartialEq, Eq)]
pub enum Error {
    /// A query is invalid: a write query without fields, or a read query
    /// routed to the JSON path that is not a `SELECT`/`SHOW`.
    InvalidQueryError { error: String },
    /// Parameter or URL assembly failed in the transport.
    UrlConstructionError { error: String },
    /// The HTTP exchange itself failed part way.
    ProtocolError { error: String },
    /// The response bytes did not match the expected shape.
    DeserializationError { error: String },
    /// The database answered with a structured error payload.
    DatabaseError { error: String },
    /// The database answered with a non-2xx status code.
    ApiError(u16),
    /// The HTTP request could not be made at all.
    ConnectionError { error: String },
}

impl Error {
    /// The human-readable description of this error.
    pub open spec fn message_spec(self) -> Seq<char> {
        match self {
            Error::InvalidQueryError { error } => "query is invalid: "@ + error@,
            Error::UrlConstructionError { error } => "Failed to build URL: "@ + error@,
            Error::ProtocolError { error } => "http protocol error: "@ + error@,
            Error::DeserializationError { error } => "http protocol error: "@ + error@,
            Error::DatabaseError { error } => "InfluxDB encountered the following error: "@
                + error@,
            Error::ApiError(code) => "API error with a status code: "@ + dec_rep(code as nat),
            Error::ConnectionError { error } => "connection error: "@ + error@,
        }
    }

    /// Renders the error as text, exactly as [`Self::message_spec`] states.
    pub fn message(&self) -> (r: String)
        ensures
            r@ == self.message_spec(),
    {
        match self {
            Error::InvalidQueryError { error } => {
                let mut s = String::from_str("query is invalid: ");
                s.append(error.as_str());
                s
            },
            Error::UrlConstructionError { error } => {
                let mut s = String::from_str("Failed to build URL: ");
                s.append(error.as_str());
                s
            },
            Error::ProtocolError { error } => {
                let mut s = String::from_str("http protocol error: ");
                s.append(error.as_str());
                s
            },
            Error::DeserializationError { error } => {
                let mut s = String::from_str("http protocol error: ");
                s.append(error.as_str());
                s
            },
            Error::DatabaseError { error } => {
                let mut s = String::from_str("InfluxDB encountered the following error: ");
                s.append(error.as_str());
                s
            },
            Error::ApiError(code) => {
                let mut s = String::from_str("API error with a status code: ");
                let digits = format_u64(*code as u64);
                s.append(digits.as_str());
                s
            },
            Error::ConnectionError { error } => {
                let mut s = String::from_str("connection error: ");
                s.append(error.as_str());
                s
            },
        }
    }
}

/// A timestamp too large for the signed 64-bit nanosecond range.
#[derive(Debug, Clone, Copy, PartialEq, Eq)]
pub struct TimestampTooLargeError;

/// A failed conversion between a [`crate::Timestamp`] and a calendar time:
/// either the calendar library rejected the value, or it did not fit the
/// integer type.
#[derive(Debug, Clone, Copy, PartialEq, Eq)]
pub enum TimeTryFromError<T, I> {
    TimeError(T),
    IntError(I),
}

} // verus!
