//! Queries of type [`ReadQuery`](crate::ReadQuery) or
//! [`WriteQuery`](crate::WriteQuery) which can be run against InfluxDB,
//! and the [`Timestamp`] model that fixes both the trailing literal of a
//! write line and the precision parameter of the write request.

pub mod line_proto_term;
pub mod read_query;
pub mod write_query;

use vstd::prelude::*;

use crate::error::Error;
use crate::fmt_num::{dec_rep, format_u128};
use crate::query::read_query::ReadQuery;
use crate::query::write_query::WriteQuery;
use crate::text::str_eq;

verus! {

/// A duration since the Unix epoch, tagged with the unit it is counted in.
/// The magnitude is rendered as the bare trailing literal of a write line;
/// the unit only reaches the server through the `precision` parameter.
#[derive(PartialEq, Eq, Structural, Debug, Copy, Clone)]
pub enum Timestamp {
    Nanoseconds(u128),
    Microseconds(u128),
    Milliseconds(u128),
    Seconds(u128),
    Minutes(u128),
    Hours(u128),
}

impl Timestamp {
    /// The bare duration count, in whatever unit the variant names.
    pub open spec fn magnitude(self) -> u128 {
        match self {
            Timestamp::Nanoseconds(t) => t,
            Timestamp::Microseconds(t) => t,
            Timestamp::Milliseconds(t) => t,
            Timestamp::Seconds(t) => t,
            Timestamp::Minutes(t) => t,
            Timestamp::Hours(t) => t,
        }
    }

    /// How many nanoseconds one unit of this variant spans.
    pub open spec fn unit_nanos(self) -> nat {
        match self {
            Timestamp::Nanoseconds(_) => 1,
            Timestamp::Microseconds(_) => 1000,
            Timestamp::Milliseconds(_) => 1000000,
            Timestamp::Seconds(_) => 1000000000,
            Timestamp::Minutes(_) => 60000000000,
            Timestamp::Hours(_) => 3600000000000,
        }
    }

    /// The precision token the server expects for this unit.
    pub open spec fn precision_token(self) -> Seq<char> {
        match self {
            Timestamp::Nanoseconds(_) => "ns"@,
            Timestamp::Microseconds(_) => "u"@,
            Timestamp::Milliseconds(_) => "ms"@,
            Timestamp::Seconds(_) => "s"@,
            Timestamp::Minutes(_) => "m"@,
            Timestamp::Hours(_) => "h"@,
        }
    }

    /// The whole duration in nanoseconds. The caller owes a magnitude small
    /// enough that the conversion does not overflow; [`Self::checked_nanos`]
    /// reports the overflow instead.
    pub fn nanos(&self) -> (r: u128)
        requires
            self.magnitude() * self.unit_nanos() <= u128::MAX,
        ensures
            r == self.magnitude() * self.unit_nanos(),
    {
        match self {
            Timestamp::Nanoseconds(t) => *t,
            Timestamp::Microseconds(t) => *t * 1000,
            Timestamp::Milliseconds(t) => *t * 1000000,
            Timestamp::Seconds(t) => *t * 1000000000,
            Timestamp::Minutes(t) => *t * 60000000000,
            Timestamp::Hours(t) => *t * 3600000000000,
        }
    }

    /// The whole duration in nanoseconds, or `None` when it does not fit:
    /// the conversion never truncates silently.
    pub fn checked_nanos(&self) -> (r: Option<u128>)
        ensures
            match r {
                Some(v) => self.magnitude() * self.unit_nanos() <= u128::MAX && v
                    == self.magnitude() * self.unit_nanos(),
                None => self.magnitude() * self.unit_nanos() > u128::MAX,
            },
    {
        let m = self.magnitude_value();
        let unit = self.unit_nanos_value();
        if m <= u128::MAX / unit {
            proof {
                lemma_mul_within_bound(m, unit, u128::MAX);
            }
            Some(m * unit)
        } else {
            proof {
                lemma_mul_exceeds_bound(m, unit, u128::MAX);
            }
            None
        }
    }

    /// The bare magnitude, as an executable value.
    pub fn magnitude_value(&self) -> (r: u128)
        ensures
            r == self.magnitude(),
    {
        match self {
            Timestamp::Nanoseconds(t) => *t,
            Timestamp::Microseconds(t) => *t,
            Timestamp::Milliseconds(t) => *t,
            Timestamp::Seconds(t) => *t,
            Timestamp::Minutes(t) => *t,
            Timestamp::Hours(t) => *t,
        }
    }

    fn unit_nanos_value(&self) -> (r: u128)
        ensures
            r == self.unit_nanos(),
            r >= 1,
    {
        match self {
            Timestamp::Nanoseconds(_) => 1,
            Timestamp::Microseconds(_) => 1000,
            Timestamp::Milliseconds(_) => 1000000,
            Timestamp::Seconds(_) => 1000000000,
            Timestamp::Minutes(_) => 60000000000,
            Timestamp::Hours(_) => 3600000000000,
        }
    }

    /// The trailing literal of a write line: the magnitude in decimal.
    pub fn to_text(&self) -> (r: String)
        ensures
            r@ == dec_rep(self.magnitude() as nat),
    {
        format_u128(self.magnitude_value())
    }

    /// The precision token for this unit, as the `precision` parameter of a
    /// write request wants it.
    pub fn precision(&self) -> (r: String)
        ensures
            r@ == self.precision_token(),
    {
        match self {
            Timestamp::Nanoseconds(_) => String::from_str("ns"),
            Timestamp::Microseconds(_) => String::from_str("u"),
            Timestamp::Milliseconds(_) => String::from_str("ms"),
            Timestamp::Seconds(_) => String::from_str("s"),
            Timestamp::Minutes(_) => String::from_str("m"),
            Timestamp::Hours(_) => String::from_str("h"),
        }
    }

    /// Starts a write query against the named measurement, stamped with
    /// this timestamp.
    pub fn into_query(self, name: &str) -> (r: WriteQuery)
        ensures
            r.is_initial(self, name@),
    {
        WriteQuery::new(self, name)
    }
}

proof fn lemma_mul_within_bound(m: u128, unit: u128, bound: u128)
    requires
        unit >= 1,
        m <= bound as int / unit as int,
    ensures
        m * unit <= bound,
{
    assert(m * unit <= (bound as int / unit as int) * unit) by (nonlinear_arith)
        requires
            unit >= 1,
            m <= bound as int / unit as int,
    ;
    assert((bound as int / unit as int) * unit <= bound) by (nonlinear_arith)
        requires
            unit >= 1,
    ;
}

proof fn lemma_mul_exceeds_bound(m: u128, unit: u128, bound: u128)
    requires
        unit >= 1,
        m > bound as int / unit as int,
    ensures
        m * unit > bound,
{
    assert(m * unit >= (bound as int / unit as int + 1) * unit) by (nonlinear_arith)
        requires
            unit >= 1,
            m >= bound as int / unit as int + 1,
    ;
    assert((bound as int / unit as int + 1) * unit > bound) by (nonlinear_arith)
        requires
            unit >= 1,
    ;
}

/// Something that can be rendered as wire text and sent to the database.
pub trait Query {
    /// Builds valid InfluxSQL which can be run against the database.
    /// A write query with no fields is invalid InfluxSQL syntax and is
    /// rejected here.
    fn build(&self) -> Result<ValidQuery, Error>;

    /// Like [`Self::build`], with a mode switch for databases that accept
    /// unsigned integer field values on the wire.
    fn build_with_opts(&self, use_v2: bool) -> Result<ValidQuery, Error>;

    /// Whether this is a read or a write, and with which precision.
    fn get_type(&self) -> QueryType;
}

/// Returns a [`WriteQuery`] builder.
pub fn write_query(timestamp: Timestamp, measurement: &str) -> (r: WriteQuery)
    ensures
        r.is_initial(timestamp, measurement@),
{
    WriteQuery::new(timestamp, measurement)
}

/// Returns a [`ReadQuery`] builder.
pub fn raw_read_query(read_query: &str) -> (r: ReadQuery)
    ensures
        r.queries@.len() == 1,
        r.queries@[0]@ == read_query@,
{
    ReadQuery::new(read_query)
}

/// Something that can describe itself as a write query: a timestamp plus
/// fields and tags. Record types implement this by hand where other client
/// libraries would generate the code.
pub trait InfluxDbWriteable {
    type Error;

    /// Describes `self` as a write against the named measurement.
    fn try_into_query(self, name: &str) -> Result<WriteQuery, Self::Error>;
}

impl InfluxDbWriteable for Timestamp {
    type Error = Error;

    fn try_into_query(self, name: &str) -> (r: Result<WriteQuery, Error>)
        ensures
            r matches Ok(q) && q.is_initial(self, name@),
    {
        Ok(WriteQuery::new(self, name))
    }
}

/// A fully rendered query, ready to be sent as it stands.
#[derive(Debug)]
pub struct ValidQuery(String);

impl View for ValidQuery {
    type V = Seq<char>;

    closed spec fn view(&self) -> Seq<char> {
        self.0@
    }
}

impl ValidQuery {
    /// Hands out the rendered text.
    pub fn get(self) -> (r: String)
        ensures
            r@ == self@,
    {
        self.0
    }

    /// Wraps text that is already known to be valid.
    pub fn from_text(text: String) -> (r: Self)
        ensures
            r@ == text@,
    {
        ValidQuery(text)
    }
}

impl From<String> for ValidQuery {
    fn from(string: String) -> (r: Self)
        ensures
            r@ == string@,
    {
        ValidQuery(string)
    }
}

impl vstd::std_specs::convert::FromSpecImpl<String> for ValidQuery {
    open spec fn obeys_from_spec() -> bool {
        true
    }

    closed spec fn from_spec(v: String) -> Self {
        ValidQuery(v)
    }
}

impl From<&str> for ValidQuery {
    fn from(string: &str) -> (r: Self)
        ensures
            r@ == string@,
    {
        ValidQuery(String::from_str(string))
    }
}

impl vstd::std_specs::convert::FromSpecImpl<&str> for ValidQuery {
    open spec fn obeys_from_spec() -> bool {
        false
    }

    closed spec fn from_spec(v: &str) -> Self {
        ValidQuery(arbitrary())
    }
}

impl PartialEq<String> for ValidQuery {
    fn eq(&self, other: &String) -> (r: bool) {
        str_eq(self.0.as_str(), other.as_str())
    }
}

impl vstd::std_specs::cmp::PartialEqSpecImpl<String> for ValidQuery {
    open spec fn obeys_eq_spec() -> bool {
        true
    }

    open spec fn eq_spec(&self, other: &String) -> bool {
        self@ == other@
    }
}

impl PartialEq<&str> for ValidQuery {
    fn eq(&self, other: &&str) -> (r: bool) {
        str_eq(self.0.as_str(), *other)
    }
}

impl vstd::std_specs::cmp::PartialEqSpecImpl<&str> for ValidQuery {
    open spec fn obeys_eq_spec() -> bool {
        true
    }

    open spec fn eq_spec(&self, other: &&str) -> bool {
        self@ == (*other)@
    }
}

/// Whether a query reads or writes, deciding the HTTP route; a write
/// carries its precision token.
#[derive(PartialEq, Eq, Debug, Clone)]
pub enum QueryType {
    ReadQuery,
    /// A write query, with the precision its timestamps are counted in.
    WriteQuery(String),
}

} // verus!
