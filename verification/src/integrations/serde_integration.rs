//! Decoding of query results. The database answers a read query with the
//! columnar shape `{ "results": [ { "series": [ { "name", "columns",
//! "values" } ] } ] }`; this module parses the body (through `serde_json`)
//! into an owned JSON model and decodes each series into typed records,
//! pairing every row value with its column name so that a record type can
//! read its fields by name, in whatever order it declares them.

pub mod de;

use vstd::prelude::*;

use crate::error::Error;
use crate::integrations::serde_integration::de::{
    decode_return, decode_tagged_return, return_parts_spec, DecodeError,
};
use crate::query::read_query::{query_views, ReadQuery};
use crate::query::Query;
use crate::text::{contains_str, has_substring, joined, lower_of, lowercase, str_eq};

verus! {

/// An owned JSON value. Object entries keep their source order, which
/// lets the decoder insist that a header (`columns`) arrives before the
/// rows (`values`) that need it. A number that fits neither `u64` nor
/// `i64` is carried as the decimal text the parser shows for it.
#[derive(Debug)]
pub enum JsonValue {
    Null,
    Bool(bool),
    Int(i64),
    UInt(u64),
    Float(String),
    Text(String),
    Array(Vec<JsonValue>),
    Object(Vec<(String, JsonValue)>),
}

impl JsonValue {
    /// The value as a signed integer: signed values directly, unsigned
    /// values when they fit.
    pub fn as_i64(&self) -> (r: Option<i64>)
        ensures
            match *self {
                JsonValue::Int(i) => r == Some(i),
                JsonValue::UInt(u) => if u <= i64::MAX {
                    r == Some(u as i64)
                } else {
                    r is None
                },
                _ => r is None,
            },
    {
        match self {
            JsonValue::Int(i) => Some(*i),
            JsonValue::UInt(u) => {
                if *u <= i64::MAX as u64 {
                    Some(*u as i64)
                } else {
                    None
                }
            },
            _ => None,
        }
    }

    /// The value as an unsigned integer: unsigned values directly, signed
    /// values when they are not negative.
    pub fn as_u64(&self) -> (r: Option<u64>)
        ensures
            match *self {
                JsonValue::UInt(u) => r == Some(u),
                JsonValue::Int(i) => if i >= 0 {
                    r == Some(i as u64)
                } else {
                    r is None
                },
                _ => r is None,
            },
    {
        match self {
            JsonValue::UInt(u) => Some(*u),
            JsonValue::Int(i) => {
                if *i >= 0 {
                    Some(*i as u64)
                } else {
                    None
                }
            },
            _ => None,
        }
    }

    /// The value as text, when it is text.
    pub fn as_text(&self) -> (r: Option<&String>)
        ensures
            match *self {
                JsonValue::Text(s) => r matches Some(t) && *t == s,
                _ => r is None,
            },
    {
        match self {
            JsonValue::Text(s) => Some(s),
            _ => None,
        }
    }

    /// The value as a boolean, when it is one.
    pub fn as_bool(&self) -> (r: Option<bool>)
        ensures
            match *self {
                JsonValue::Bool(b) => r == Some(b),
                _ => r is None,
            },
    {
        match self {
            JsonValue::Bool(b) => Some(*b),
            _ => None,
        }
    }

    /// Whether the value is JSON `null`.
    pub fn is_null(&self) -> (r: bool)
        ensures
            r == (*self is Null),
    {
        match self {
            JsonValue::Null => true,
            _ => false,
        }
    }
}

/// A decoded result unit: the series name and its rows, each row decoded
/// into the caller's record type.
#[derive(Debug)]
pub struct Series<T> {
    pub name: String,
    pub values: Vec<T>,
}

/// A decoded result unit of a grouped query: a series name, the group's
/// tag record, and the rows.
#[derive(Debug)]
pub struct TaggedSeries<TAG, T> {
    pub name: String,
    pub tags: TAG,
    pub values: Vec<T>,
}

/// One statement's result: its series. A result with no matching rows
/// has no `series` entry and decodes to an empty list, not an error.
#[derive(Debug)]
pub struct Return<T> {
    pub series: Vec<Series<T>>,
}

/// One statement's result for a grouped query.
#[derive(Debug)]
pub struct TaggedReturn<TAG, T> {
    pub series: Vec<TaggedSeries<TAG, T>>,
}

/// A record type that can read itself out of named values, field by
/// field, in whatever order the names come. What other client libraries
/// generate at compile time, an implementor writes as one short method,
/// usually a [`crate::integrations::serde_integration::de::ObjectMap::get`]
/// call per field.
pub trait FromObject: Sized {
    /// Reads one record out of the named values, or nothing when a field
    /// is absent or of the wrong kind.
    fn from_object(obj: &de::ObjectMap<'_>) -> Option<Self>;
}

#[verifier::external_type_specification]
#[verifier::external_body]
pub struct ExValue(serde_json::Value);

/// What `serde_json` parses a text to, mirrored into [`JsonValue`]:
/// `None` when the text is not valid JSON. Parsing depends on the text
/// alone.
pub uninterp spec fn json_of(s: Seq<char>) -> Option<JsonValue>;

/// Relies on `serde_json::from_str::<serde_json::Value>` to parse the
/// body. The parsed tree is mirrored into [`JsonValue`] by
/// [`json_from_serde`], object entries kept in source order (the
/// `preserve_order` feature).
#[verifier::external_body]
fn parse_json(s: &str) -> (r: Option<JsonValue>)
    ensures
        r == json_of(s@),
{
    match serde_json::from_str::<serde_json::Value>(s) {
        Ok(v) => Some(json_from_serde(v)),
        Err(_) => None,
    }
}

/// Relies on `serde_json::Value` and `serde_json::Number`: tells the
/// parsed tree's variants apart, one arm each, moving the values across;
/// a number that is neither `u64` nor `i64` is carried as the decimal
/// text its `Display` shows.
#[verifier::external_body]
fn json_from_serde(v: serde_json::Value) -> JsonValue {
    match v {
        serde_json::Value::Null => JsonValue::Null,
        serde_json::Value::Bool(b) => JsonValue::Bool(b),
        serde_json::Value::String(s) => JsonValue::Text(s),
        serde_json::Value::Number(n) => match (n.as_u64(), n.as_i64()) {
            (Some(u), _) => JsonValue::UInt(u),
            (_, Some(i)) => JsonValue::Int(i),
            _ => JsonValue::Float(n.to_string()),
        },
        serde_json::Value::Array(a) => JsonValue::Array(a.into_iter().map(json_from_serde).collect()),
        serde_json::Value::Object(o) => JsonValue::Object(o.into_iter().map(|(k, val)| (k, json_from_serde(val))).collect()),
    }
}

/// Scans an object's entries for its first `error` entry, front to back.
pub open spec fn error_scan(entries: Seq<(String, JsonValue)>) -> Option<String>
    decreases entries.len(),
{
    if entries.len() == 0 {
        None
    } else if entries[0].0@ == "error"@ {
        match entries[0].1 {
            JsonValue::Text(s) => Some(s),
            _ => None,
        }
    } else {
        error_scan(entries.drop_first())
    }
}

/// The database's own error report: the text under the payload's first
/// `error` entry, when there is one.
pub open spec fn database_error_of(v: JsonValue) -> Option<String> {
    match v {
        JsonValue::Object(entries) => error_scan(entries@),
        _ => None,
    }
}

/// Scans an object's entries for its first `results` entry, which must
/// hold an array.
pub open spec fn results_scan(entries: Seq<(String, JsonValue)>) -> Option<Seq<JsonValue>>
    decreases entries.len(),
{
    if entries.len() == 0 {
        None
    } else if entries[0].0@ == "results"@ {
        match entries[0].1 {
            JsonValue::Array(items) => Some(items@),
            _ => None,
        }
    } else {
        results_scan(entries.drop_first())
    }
}

/// The per-statement results of a response payload, when it has them.
pub open spec fn results_of(v: JsonValue) -> Option<Seq<JsonValue>> {
    match v {
        JsonValue::Object(entries) => results_scan(entries@),
        _ => None,
    }
}

#[verifier::loop_isolation(false)]
fn find_database_error(v: &JsonValue) -> (r: Option<String>)
    ensures
        match database_error_of(*v) {
            Some(msg) => r matches Some(m) && m == msg,
            None => r is None,
        },
{
    let entries: &Vec<(String, JsonValue)> = match v {
        JsonValue::Object(e) => e,
        _ => {
            return None;
        },
    };
    let mut i: usize = 0;
    proof {
        assert(entries@.skip(0) =~= entries@);
    }
    while i < entries.len()
        invariant
            i <= entries@.len(),
            error_scan(entries@) == error_scan(entries@.skip(i as int)),
        decreases entries@.len() - i,
    {
        proof {
            assert(entries@.skip(i as int)[0] == entries@[i as int]);
            assert(entries@.skip(i as int).drop_first() =~= entries@.skip(i + 1));
        }
        if str_eq(entries[i].0.as_str(), "error") {
            match &entries[i].1 {
                JsonValue::Text(s) => {
                    return Some(s.clone());
                },
                _ => {
                    return None;
                },
            }
        }
        i = i + 1;
    }
    proof {
        assert(entries@.skip(entries@.len() as int) =~= Seq::<(String, JsonValue)>::empty());
    }
    None
}

#[verifier::loop_isolation(false)]
fn extract_results(v: JsonValue) -> (r: Option<Vec<JsonValue>>)
    ensures
        match results_of(v) {
            Some(rs) => r matches Some(rv) && rv@ == rs,
            None => r is None,
        },
{
    match v {
        JsonValue::Object(entries) => {
            let ghost orig = entries@;
            let mut remaining = entries;
            while remaining.len() > 0
                invariant
                    results_scan(orig) == results_scan(remaining@),
                decreases remaining@.len(),
            {
                let (k, val) = remaining.remove(0);
                if str_eq(k.as_str(), "results") {
                    match val {
                        JsonValue::Array(items) => {
                            return Some(items);
                        },
                        _ => {
                            return None;
                        },
                    }
                }
            }
            None
        },
        _ => None,
    }
}

fn deserialization_error(e: &DecodeError) -> (r: Error)
    ensures
        r matches Error::DeserializationError { error } && error@ == "could not deserialize: "@
            + e.message_spec(),
{
    let mut msg = String::from_str("could not deserialize: ");
    let detail = e.message();
    msg.append(detail.as_str());
    Error::DeserializationError { error: msg }
}

/// The parsed top level of a query response: one raw JSON value per
/// statement, decoded further one statement at a time.
#[derive(Debug)]
pub struct DatabaseQueryResult {
    pub results: Vec<JsonValue>,
}

impl DatabaseQueryResult {
    /// Decodes the next statement's result into rows of `T`. The caller
    /// owes at least one remaining statement.
    pub fn deserialize_next<T: FromObject>(&mut self) -> (r: Result<Return<T>, Error>)
        requires
            old(self).results@.len() > 0,
        ensures
            final (self).results@ == old(self).results@.drop_first(),
            match return_parts_spec(old(self).results@[0], false) {
                Ok(ss) => match r {
                    Ok(ret) => ret.series@.len() == ss.len() && forall|i: int|
                        0 <= i < ss.len() ==> (#[trigger] ret.series@[i]).name == ss[i].0
                            && ret.series@[i].values@.len() == ss[i].3.len(),
                    Err(er) => (er matches Error::DeserializationError { error }
                        && error@ == "could not deserialize: "@
                        + DecodeError::BadRow.message_spec()) && exists|i: int|
                        0 <= i < ss.len() && (#[trigger] ss[i]).3.len() > 0,
                },
                Err(es) => r matches Err(er) && er matches Error::DeserializationError { error } && (
                error@ == "could not deserialize: "@ + es.message_spec() || error@
                    == "could not deserialize: "@ + DecodeError::BadRow.message_spec()),
            },
    {
        let v = self.results.remove(0);
        proof {
            assert(self.results@ =~= old(self).results@.drop_first());
        }
        match decode_return::<T>(&v) {
            Ok(ret) => Ok(ret),
            Err(e) => Err(deserialization_error(&e)),
        }
    }

    /// Decodes the next statement's grouped result into a tag record and
    /// rows of `T`. The caller owes at least one remaining statement.
    pub fn deserialize_next_tagged<TAG: FromObject, T: FromObject>(&mut self) -> (r: Result<
        TaggedReturn<TAG, T>,
        Error,
    >)
        requires
            old(self).results@.len() > 0,
        ensures
            final (self).results@ == old(self).results@.drop_first(),
            match return_parts_spec(old(self).results@[0], true) {
                Ok(ss) => match r {
                    Ok(ret) => ret.series@.len() == ss.len() && forall|i: int|
                        0 <= i < ss.len() ==> (#[trigger] ret.series@[i]).name == ss[i].0
                            && ret.series@[i].values@.len() == ss[i].3.len(),
                    Err(er) => (er matches Error::DeserializationError { error }
                        && error@ == "could not deserialize: "@
                        + DecodeError::BadRow.message_spec()) && ss.len() > 0,
                },
                Err(es) => r matches Err(er) && er matches Error::DeserializationError { error } && (
                error@ == "could not deserialize: "@ + es.message_spec() || error@
                    == "could not deserialize: "@ + DecodeError::BadRow.message_spec()),
            },
    {
        let v = self.results.remove(0);
        proof {
            assert(self.results@ =~= old(self).results@.drop_first());
        }
        match decode_tagged_return::<TAG, T>(&v) {
            Ok(ret) => Ok(ret),
            Err(e) => Err(deserialization_error(&e)),
        }
    }
}

/// The compute half of the JSON query path, before any request is made:
/// renders the query text and refuses queries that are not `SELECT` or
/// `SHOW`, the only kinds whose answers this decoder understands.
pub fn prepare_json_query(q: &ReadQuery) -> (r: Result<String, Error>)
    ensures
        ({
            let text = joined(query_views(q.queries@), ';');
            match r {
                Ok(s) => s@ == text && (has_substring(lower_of(text), "select"@) || has_substring(
                    lower_of(text),
                    "show"@,
                )),
                Err(e) => {
                    &&& !has_substring(lower_of(text), "select"@)
                    &&& !has_substring(lower_of(text), "show"@)
                    &&& e matches Error::InvalidQueryError { error } && error@
                        == "Only SELECT and SHOW queries supported with JSON deserialization"@
                },
            }
        }),
{
    let text = match q.build() {
        Ok(v) => v.get(),
        Err(e) => {
            proof {
                assert(false);
            }
            return Err(e);
        },
    };
    let lowered = lowercase(text.as_str());
    if contains_str(lowered.as_str(), "select") || contains_str(lowered.as_str(), "show") {
        Ok(text)
    } else {
        Err(
            Error::InvalidQueryError {
                error: String::from_str(
                    "Only SELECT and SHOW queries supported with JSON deserialization",
                ),
            },
        )
    }
}

/// The compute half of the JSON query path, after the response arrived:
/// parses the body, surfaces the database's own `{ "error": ... }` report
/// first, and otherwise reads the `{ "results": [...] }` shape.
pub fn parse_query_response(body: &str) -> (r: Result<DatabaseQueryResult, Error>)
    ensures
        match json_of(body@) {
            None => r matches Err(e) && e matches Error::DeserializationError { error } && error@
                == "response body is not valid JSON"@,
            Some(v) => match database_error_of(v) {
                Some(msg) => r matches Err(e) && e matches Error::DatabaseError { error } && error
                    == msg,
                None => match results_of(v) {
                    Some(results) => r matches Ok(d) && d.results@ == results,
                    None => r matches Err(e) && e matches Error::DeserializationError { error }
                        && error@ == "response shape did not match results"@,
                },
            },
        },
{
    let v = match parse_json(body) {
        Some(v) => v,
        None => {
            return Err(
                Error::DeserializationError {
                    error: String::from_str("response body is not valid JSON"),
                },
            );
        },
    };
    match find_database_error(&v) {
        Some(msg) => {
            return Err(Error::DatabaseError { error: msg });
        },
        None => {},
    }
    match extract_results(v) {
        Some(results) => Ok(DatabaseQueryResult { results }),
        None => Err(
            Error::DeserializationError {
                error: String::from_str("response shape did not match results"),
            },
        ),
    }
}

} // verus!
