//! A simpler, prefixed surface of the query builders, kept alongside the
//! current API for callers that want values rendered eagerly: keys and
//! values go onto the wire exactly as given, with no escaping, so the
//! caller guarantees that they hold no reserved characters.

use vstd::prelude::*;

use crate::fmt_num::{dec_rep, dec_rep_signed, format_i64, format_u64, format_u128};
use crate::query::ValidQuery;
use crate::text::{joined, lemma_joined_snoc, push_char};

verus! {

/// What went wrong in the prefixed API.
#[derive(Debug, Clone, PartialEq, Eq)]
pub enum InfluxDbError {
    /// A query is invalid: a write query without fields.
    InvalidQueryError { error: String },
    /// The HTTP exchange itself failed part way.
    ProtocolError { error: String },
    /// The response bytes did not match the expected shape.
    DeserializationError { error: String },
    /// The database answered with a structured error payload.
    DatabaseError { error: String },
}

/// A duration since the Unix epoch for the prefixed API, or `Now`, which
/// leaves the timestamp to the server and renders as nothing at all.
#[derive(PartialEq, Eq, Structural, Debug, Copy, Clone)]
pub enum Timestamp {
    Now,
    Nanoseconds(usize),
    Microseconds(usize),
    Milliseconds(usize),
    Seconds(usize),
    Minutes(usize),
    Hours(usize),
}

impl Timestamp {
    /// The bare literal of the timestamp: empty for `Now`, the decimal
    /// magnitude otherwise.
    pub open spec fn literal_text(self) -> Seq<char> {
        match self {
            Timestamp::Now => Seq::empty(),
            Timestamp::Nanoseconds(t) => dec_rep(t as nat),
            Timestamp::Microseconds(t) => dec_rep(t as nat),
            Timestamp::Milliseconds(t) => dec_rep(t as nat),
            Timestamp::Seconds(t) => dec_rep(t as nat),
            Timestamp::Minutes(t) => dec_rep(t as nat),
            Timestamp::Hours(t) => dec_rep(t as nat),
        }
    }

    /// The precision token of the unit, where one exists: `Now` has none.
    pub open spec fn precision_text(self) -> Seq<char> {
        match self {
            Timestamp::Now => Seq::empty(),
            Timestamp::Nanoseconds(_) => "&precision=ns"@,
            Timestamp::Microseconds(_) => "&precision=u"@,
            Timestamp::Milliseconds(_) => "&precision=ms"@,
            Timestamp::Seconds(_) => "&precision=s"@,
            Timestamp::Minutes(_) => "&precision=m"@,
            Timestamp::Hours(_) => "&precision=h"@,
        }
    }

    /// Renders the bare literal, exactly as [`Self::literal_text`] states.
    pub fn to_text(&self) -> (r: String)
        ensures
            r@ == self.literal_text(),
    {
        match self {
            Timestamp::Now => String::new(),
            Timestamp::Nanoseconds(t) => format_u128(*t as u128),
            Timestamp::Microseconds(t) => format_u128(*t as u128),
            Timestamp::Milliseconds(t) => format_u128(*t as u128),
            Timestamp::Seconds(t) => format_u128(*t as u128),
            Timestamp::Minutes(t) => format_u128(*t as u128),
            Timestamp::Hours(t) => format_u128(*t as u128),
        }
    }
}

/// Entry points of the prefixed API.
pub struct InfluxDbQuery;

impl InfluxDbQuery {
    /// Starts a raw write against the named measurement.
    pub fn write(measurement: &str) -> (r: InfluxDbWrite)
        ensures
            r.measurement@ == measurement@,
            r.fields@.len() == 0,
            r.tags@.len() == 0,
    {
        InfluxDbWrite { measurement: String::from_str(measurement), fields: Vec::new(), tags: Vec::new() }
    }
}

/// The wire text of one raw `key=value` pair.
pub open spec fn raw_pair_text(p: (String, String)) -> Seq<char> {
    p.0@ + seq!['='] + p.1@
}

/// The raw pairs joined with commas.
pub open spec fn raw_pairs_text(pairs: Seq<(String, String)>) -> Seq<char> {
    joined(pairs.map_values(|p: (String, String)| raw_pair_text(p)), ',')
}

#[verifier::loop_isolation(false)]
fn render_raw_pairs(pairs: &Vec<(String, String)>) -> (r: String)
    ensures
        r@ == raw_pairs_text(pairs@),
{
    let mut out = String::new();
    let mut i: usize = 0;
    while i < pairs.len()
        invariant
            i <= pairs@.len(),
            out@ == raw_pairs_text(pairs@.take(i as int)),
        decreases pairs@.len() - i,
    {
        if i > 0 {
            push_char(&mut out, ',');
        }
        out.append(pairs[i].0.as_str());
        push_char(&mut out, '=');
        out.append(pairs[i].1.as_str());
        proof {
            lemma_joined_snoc(
                pairs@.take(i as int).map_values(|p: (String, String)| raw_pair_text(p)),
                raw_pair_text(pairs@[i as int]),
                ',',
            );
            assert(pairs@.take(i + 1).map_values(|p: (String, String)| raw_pair_text(p))
                =~= pairs@.take(i as int).map_values(|p: (String, String)| raw_pair_text(p)).push(
                raw_pair_text(pairs@[i as int]),
            ));
            assert(out@ =~= raw_pairs_text(pairs@.take(i + 1)));
        }
        i = i + 1;
    }
    proof {
        assert(pairs@.take(pairs@.len() as int) =~= pairs@);
    }
    out
}

/// A raw write of one data point: string fields and tags passed through
/// as given, and a fixed `time` placeholder for the server to fill.
#[derive(Debug)]
pub struct InfluxDbWrite {
    pub fields: Vec<(String, String)>,
    pub tags: Vec<(String, String)>,
    pub measurement: String,
}

/// The whole raw line: measurement, a comma, the tag pairs, a space, the
/// field pairs, a space, and the `time` placeholder.
pub open spec fn raw_line_text(q: InfluxDbWrite) -> Seq<char> {
    q.measurement@ + seq![','] + raw_pairs_text(q.tags@) + seq![' '] + raw_pairs_text(q.fields@)
        + seq![' '] + "time"@
}

impl InfluxDbWrite {
    /// Appends a field, exactly as given.
    pub fn add_field(self, point: &str, value: &str) -> (r: Self)
        ensures
            r.fields@.len() == self.fields@.len() + 1,
            r.fields@.drop_last() == self.fields@,
            r.fields@.last().0@ == point@,
            r.fields@.last().1@ == value@,
            r.tags@ == self.tags@,
            r.measurement == self.measurement,
    {
        let mut q = self;
        q.fields.push((String::from_str(point), String::from_str(value)));
        proof {
            assert(q.fields@.drop_last() =~= self.fields@);
        }
        q
    }

    /// Appends a tag, exactly as given.
    pub fn add_tag(self, tag: &str, value: &str) -> (r: Self)
        ensures
            r.tags@.len() == self.tags@.len() + 1,
            r.tags@.drop_last() == self.tags@,
            r.tags@.last().0@ == tag@,
            r.tags@.last().1@ == value@,
            r.fields@ == self.fields@,
            r.measurement == self.measurement,
    {
        let mut q = self;
        q.tags.push((String::from_str(tag), String::from_str(value)));
        proof {
            assert(q.tags@.drop_last() =~= self.tags@);
        }
        q
    }

    /// Renders the line; a write without fields is refused.
    pub fn build(self) -> (r: Result<ValidQuery, InfluxDbError>)
        ensures
            match r {
                Ok(v) => self.fields@.len() > 0 && v@ == raw_line_text(self),
                Err(e) => {
                    &&& self.fields@.len() == 0
                    &&& e matches InfluxDbError::InvalidQueryError { error } && error@
                        == "fields cannot be empty"@
                },
            },
    {
        if self.fields.len() == 0 {
            return Err(
                InfluxDbError::InvalidQueryError {
                    error: String::from_str("fields cannot be empty"),
                },
            );
        }
        let mut out = self.measurement.clone();
        push_char(&mut out, ',');
        let tag_pairs = render_raw_pairs(&self.tags);
        out.append(tag_pairs.as_str());
        push_char(&mut out, ' ');
        let field_pairs = render_raw_pairs(&self.fields);
        out.append(field_pairs.as_str());
        push_char(&mut out, ' ');
        out.append("time");
        proof {
            assert(out@ =~= raw_line_text(self));
        }
        Ok(ValidQuery::from_text(out))
    }
}

/// One of the five scalar kinds of the prefixed API, rendered eagerly: a
/// floating-point value is carried as its decimal rendering, produced by
/// the caller.
#[derive(Debug, Clone)]
pub enum InfluxDbType {
    Boolean(bool),
    Float(String),
    SignedInteger(i64),
    UnsignedInteger(u64),
    Text(String),
}

impl InfluxDbType {
    /// How the value is rendered onto the wire: text gets bare quotes,
    /// nothing is escaped, numbers carry no type suffix.
    pub open spec fn rendered_text(self) -> Seq<char> {
        match self {
            InfluxDbType::Boolean(b) => if b {
                "true"@
            } else {
                "false"@
            },
            InfluxDbType::Float(f) => f@,
            InfluxDbType::SignedInteger(i) => dec_rep_signed(i as int),
            InfluxDbType::UnsignedInteger(u) => dec_rep(u as nat),
            InfluxDbType::Text(t) => seq!['"'] + t@ + seq!['"'],
        }
    }

    /// Renders the value, exactly as [`Self::rendered_text`] states.
    pub fn to_text(&self) -> (r: String)
        ensures
            r@ == self.rendered_text(),
    {
        match self {
            InfluxDbType::Boolean(b) => {
                if *b {
                    String::from_str("true")
                } else {
                    String::from_str("false")
                }
            },
            InfluxDbType::Float(f) => f.clone(),
            InfluxDbType::SignedInteger(i) => format_i64(*i),
            InfluxDbType::UnsignedInteger(u) => format_u64(*u),
            InfluxDbType::Text(t) => {
                let mut s = String::new();
                push_char(&mut s, '"');
                s.append(t.as_str());
                push_char(&mut s, '"');
                proof {
                    assert(s@ =~= seq!['"'] + t@ + seq!['"']);
                }
                s
            },
        }
    }
}

/// A timestamped write of the prefixed API: values are rendered through
/// [`InfluxDbType`] as they are added, and nothing is escaped.
#[derive(Debug)]
pub struct InfluxDbWriteQuery {
    pub fields: Vec<(String, String)>,
    pub tags: Vec<(String, String)>,
    pub measurement: String,
    pub timestamp: Timestamp,
}

/// The whole line of a timestamped raw write: the tag block only appears
/// when there are tags, and `Now` leaves the timestamp off entirely.
pub open spec fn write_query_text(q: InfluxDbWriteQuery) -> Seq<char> {
    q.measurement@ + (if q.tags@.len() == 0 {
        Seq::empty()
    } else {
        seq![','] + raw_pairs_text(q.tags@)
    }) + seq![' '] + raw_pairs_text(q.fields@) + (if q.timestamp is Now {
        Seq::empty()
    } else {
        seq![' '] + q.timestamp.literal_text()
    })
}

impl InfluxDbWriteQuery {
    /// Creates a new [`InfluxDbWriteQuery`] with no fields or tags yet.
    pub fn new(timestamp: Timestamp, measurement: &str) -> (r: Self)
        ensures
            r.fields@.len() == 0,
            r.tags@.len() == 0,
            r.measurement@ == measurement@,
            r.timestamp == timestamp,
    {
        InfluxDbWriteQuery {
            fields: Vec::new(),
            tags: Vec::new(),
            measurement: String::from_str(measurement),
            timestamp,
        }
    }

    /// Appends a field, rendering the value now.
    pub fn add_field(self, tag: &str, value: InfluxDbType) -> (r: Self)
        ensures
            r.fields@.len() == self.fields@.len() + 1,
            r.fields@.drop_last() == self.fields@,
            r.fields@.last().0@ == tag@,
            r.fields@.last().1@ == value.rendered_text(),
            r.tags@ == self.tags@,
            r.measurement == self.measurement,
            r.timestamp == self.timestamp,
    {
        let mut q = self;
        q.fields.push((String::from_str(tag), value.to_text()));
        proof {
            assert(q.fields@.drop_last() =~= self.fields@);
        }
        q
    }

    /// Appends a tag, rendering the value now. A query with only tags
    /// still fails to build.
    pub fn add_tag(self, tag: &str, value: InfluxDbType) -> (r: Self)
        ensures
            r.tags@.len() == self.tags@.len() + 1,
            r.tags@.drop_last() == self.tags@,
            r.tags@.last().0@ == tag@,
            r.tags@.last().1@ == value.rendered_text(),
            r.fields@ == self.fields@,
            r.measurement == self.measurement,
            r.timestamp == self.timestamp,
    {
        let mut q = self;
        q.tags.push((String::from_str(tag), value.to_text()));
        proof {
            assert(q.tags@.drop_last() =~= self.tags@);
        }
        q
    }

    /// The `precision` fragment the write request must carry: empty for
    /// `Now`, a `&precision=` parameter otherwise.
    pub fn get_precision_modifier(&self) -> (r: String)
        ensures
            r@ == self.timestamp.precision_text(),
    {
        match self.timestamp {
            Timestamp::Now => String::new(),
            Timestamp::Nanoseconds(_) => String::from_str("&precision=ns"),
            Timestamp::Microseconds(_) => String::from_str("&precision=u"),
            Timestamp::Milliseconds(_) => String::from_str("&precision=ms"),
            Timestamp::Seconds(_) => String::from_str("&precision=s"),
            Timestamp::Minutes(_) => String::from_str("&precision=m"),
            Timestamp::Hours(_) => String::from_str("&precision=h"),
        }
    }

    /// Renders the line; a write without fields is refused.
    pub fn build(&self) -> (r: Result<ValidQuery, InfluxDbError>)
        ensures
            match r {
                Ok(v) => self.fields@.len() > 0 && v@ == write_query_text(*self),
                Err(e) => {
                    &&& self.fields@.len() == 0
                    &&& e matches InfluxDbError::InvalidQueryError { error } && error@
                        == "fields cannot be empty"@
                },
            },
    {
        if self.fields.len() == 0 {
            return Err(
                InfluxDbError::InvalidQueryError {
                    error: String::from_str("fields cannot be empty"),
                },
            );
        }
        let mut out = self.measurement.clone();
        if self.tags.len() > 0 {
            push_char(&mut out, ',');
            let tag_pairs = render_raw_pairs(&self.tags);
            out.append(tag_pairs.as_str());
        }
        push_char(&mut out, ' ');
        let field_pairs = render_raw_pairs(&self.fields);
        out.append(field_pairs.as_str());
        match &self.timestamp {
            Timestamp::Now => {},
            _ => {
                push_char(&mut out, ' ');
                let literal = self.timestamp.to_text();
                out.append(literal.as_str());
            },
        }
        proof {
            assert(out@ =~= write_query_text(*self));
        }
        Ok(ValidQuery::from_text(out))
    }
}

/// One or more raw query strings of the prefixed API, joined with `;` at
/// build time.
#[derive(Debug)]
pub struct InfluxDbReadQuery {
    pub queries: Vec<String>,
}

impl InfluxDbReadQuery {
    /// Creates a new [`InfluxDbReadQuery`] holding the one given query.
    pub fn new(query: &str) -> (r: Self)
        ensures
            r.queries@.len() == 1,
            r.queries@[0]@ == query@,
    {
        let mut queries: Vec<String> = Vec::new();
        queries.push(String::from_str(query));
        InfluxDbReadQuery { queries }
    }

    /// Adds one more query to run in the same request.
    pub fn add_query(self, query: &str) -> (r: Self)
        ensures
            r.queries@.len() == self.queries@.len() + 1,
            r.queries@.drop_last() == self.queries@,
            r.queries@.last()@ == query@,
    {
        let mut queries = self.queries;
        queries.push(String::from_str(query));
        proof {
            assert(queries@.drop_last() =~= self.queries@);
        }
        InfluxDbReadQuery { queries }
    }
}

/// A decoded result unit of the prefixed API.
#[derive(Debug)]
pub struct InfluxDbSeries<T> {
    pub name: String,
    pub values: Vec<T>,
}

/// One statement's result in the prefixed API.
#[derive(Debug)]
pub struct InfluxDbReturn<T> {
    pub series: Vec<InfluxDbSeries<T>>,
}

/// The prefixed client: where the database lives and which database to
/// talk to. The transport lives outside this crate.
#[derive(Debug)]
pub struct InfluxDbClient {
    pub url: String,
    pub database: String,
}

impl InfluxDbClient {
    /// Instantiates a prefixed client.
    pub fn new(url: &str, database: &str) -> (r: Self)
        ensures
            r.url@ == url@,
            r.database@ == database@,
    {
        InfluxDbClient { url: String::from_str(url), database: String::from_str(database) }
    }
}

} // verus!
