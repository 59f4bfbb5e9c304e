//! A client-side library for the InfluxDB time-series database: it builds
//! write queries, renders them into the line-oriented text wire format with
//! role-specific escaping, and decodes the columnar JSON result shape
//! (`columns: [...]`, `values: [[...], ...]`) into typed records.
//!
//! The transport itself (HTTP requests, connection handling) is out of
//! scope: callers hand response bodies in and take wire text out.

pub mod client;
pub mod compat;
pub mod error;
pub mod fmt_num;
pub mod integrations;
pub mod query;
pub mod text;

pub use crate::client::{
    check_database_error, check_status, read_query_uses_get, Client, InfluxVersion1, InfluxVersion2, InfluxVersion3,
};
pub use crate::error::{Error, TimeTryFromError, TimestampTooLargeError};
pub use crate::query::line_proto_term::LineProtoTerm;
pub use crate::query::read_query::ReadQuery;
pub use crate::query::write_query::{Type, WriteQuery};
pub use crate::integrations::serde_integration::de::{DecodeError, ObjectMap, RowCursor};
pub use crate::integrations::serde_integration::{
    DatabaseQueryResult, FromObject, JsonValue, Return, Series, TaggedReturn, TaggedSeries,
};
pub use crate::query::{
    raw_read_query, write_query, InfluxDbWriteable, Query, QueryType, Timestamp, ValidQuery,
};
