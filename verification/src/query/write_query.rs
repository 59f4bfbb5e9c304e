//! Write query builder: accumulates ordered field and tag pairs plus a
//! timestamp and a measurement name, and renders them into one line of
//! wire text.

use vstd::prelude::*;

use crate::error::Error;
use crate::fmt_num::{dec_rep, dec_rep_signed, format_u128};
use crate::query::line_proto_term::{
    char_class_set, escape_str, escaped_chars, field_value_string, field_value_text,
    tag_value_string, tag_value_text, CharClass,
};
use crate::query::{Query, QueryType, Timestamp, ValidQuery};
use crate::text::{joined, lemma_joined_snoc, push_char};

verus! {

/// One of the five scalar kinds a field or tag value can hold. A
/// floating-point value is carried as its decimal rendering, produced by
/// the caller (for instance with `f64::to_string`); the rendering of a
/// finite float never holds reserved characters.
#[derive(Debug, Clone)]
pub enum Type {
    Boolean(bool),
    Float(String),
    SignedInteger(i64),
    UnsignedInteger(u64),
    Text(String),
}

impl Type {
    /// The bare text of the value: words for booleans, digits for numbers,
    /// the text itself unquoted and unescaped.
    pub open spec fn raw_text(self) -> Seq<char> {
        match self {
            Type::Boolean(b) => if b {
                "true"@
            } else {
                "false"@
            },
            Type::Float(f) => f@,
            Type::SignedInteger(i) => dec_rep_signed(i as int),
            Type::UnsignedInteger(u) => dec_rep(u as nat),
            Type::Text(t) => t@,
        }
    }

    /// Renders the bare text of the value, exactly as [`Self::raw_text`]
    /// states.
    pub fn to_text(&self) -> (r: String)
        ensures
            r@ == self.raw_text(),
    {
        match self {
            Type::Boolean(b) => {
                if *b {
                    String::from_str("true")
                } else {
                    String::from_str("false")
                }
            },
            Type::Float(f) => f.clone(),
            Type::SignedInteger(i) => crate::fmt_num::format_i64(*i),
            Type::UnsignedInteger(u) => crate::fmt_num::format_u64(*u),
            Type::Text(t) => t.clone(),
        }
    }
}

/// A write of one data point: ordered fields and tags, a measurement name
/// and a timestamp. Insertion order is kept on the wire, duplicate keys
/// are passed through unmerged, and `tags` may stay empty; `fields` must
/// be non-empty by the time the query is built.
#[derive(Debug, Clone)]
pub struct WriteQuery {
    pub fields: Vec<(String, Type)>,
    pub tags: Vec<(String, Type)>,
    pub measurement: String,
    pub timestamp: Timestamp,
}

impl WriteQuery {
    /// What a freshly created write query looks like: no fields, no tags.
    pub open spec fn is_initial(self, timestamp: Timestamp, measurement: Seq<char>) -> bool {
        &&& self.fields@.len() == 0
        &&& self.tags@.len() == 0
        &&& self.measurement@ == measurement
        &&& self.timestamp == timestamp
    }

    /// Creates a new [`WriteQuery`] with no fields or tags yet.
    pub fn new(timestamp: Timestamp, measurement: &str) -> (r: Self)
        ensures
            r.is_initial(timestamp, measurement@),
    {
        WriteQuery {
            fields: Vec::new(),
            tags: Vec::new(),
            measurement: String::from_str(measurement),
            timestamp,
        }
    }

    /// Appends a field; an earlier field under the same key is kept, not
    /// merged.
    pub fn add_field(self, field: &str, value: Type) -> (r: Self)
        ensures
            r.fields@.len() == self.fields@.len() + 1,
            r.fields@.drop_last() == self.fields@,
            r.fields@.last().0@ == field@,
            r.fields@.last().1 == value,
            r.tags@ == self.tags@,
            r.measurement == self.measurement,
            r.timestamp == self.timestamp,
    {
        let mut q = self;
        q.fields.push((String::from_str(field), value));
        proof {
            assert(q.fields@.drop_last() =~= self.fields@);
        }
        q
    }

    /// Appends a tag. A query with only tags will still fail to build:
    /// at least one field is required.
    pub fn add_tag(self, tag: &str, value: Type) -> (r: Self)
        ensures
            r.tags@.len() == self.tags@.len() + 1,
            r.tags@.drop_last() == self.tags@,
            r.tags@.last().0@ == tag@,
            r.tags@.last().1 == value,
            r.fields@ == self.fields@,
            r.measurement == self.measurement,
            r.timestamp == self.timestamp,
    {
        let mut q = self;
        q.tags.push((String::from_str(tag), value));
        proof {
            assert(q.tags@.drop_last() =~= self.tags@);
        }
        q
    }

    /// Appends a field when a value is present; contributes nothing when
    /// it is absent.
    pub fn add_field_opt(self, field: &str, value: Option<Type>) -> (r: Self)
        ensures
            match value {
                Some(v) => {
                    &&& r.fields@.len() == self.fields@.len() + 1
                    &&& r.fields@.drop_last() == self.fields@
                    &&& r.fields@.last().0@ == field@
                    &&& r.fields@.last().1 == v
                    &&& r.tags@ == self.tags@
                    &&& r.measurement == self.measurement
                    &&& r.timestamp == self.timestamp
                },
                None => r == self,
            },
    {
        match value {
            Some(v) => self.add_field(field, v),
            None => self,
        }
    }

    /// Appends a tag when a value is present; contributes nothing when it
    /// is absent.
    pub fn add_tag_opt(self, tag: &str, value: Option<Type>) -> (r: Self)
        ensures
            match value {
                Some(v) => {
                    &&& r.tags@.len() == self.tags@.len() + 1
                    &&& r.tags@.drop_last() == self.tags@
                    &&& r.tags@.last().0@ == tag@
                    &&& r.tags@.last().1 == v
                    &&& r.fields@ == self.fields@
                    &&& r.measurement == self.measurement
                    &&& r.timestamp == self.timestamp
                },
                None => r == self,
            },
    {
        match value {
            Some(v) => self.add_tag(tag, v),
            None => self,
        }
    }

    /// The precision token of this query's timestamp unit.
    pub fn get_precision(&self) -> (r: String)
        ensures
            r@ == self.timestamp.precision_token(),
    {
        self.timestamp.precision()
    }
}

/// The wire text of one `key=value` tag pair.
pub open spec fn tag_pair_text(p: (String, Type)) -> Seq<char> {
    escaped_chars(p.0@, char_class_set(CharClass::CommaSpaceEq)) + seq!['='] + tag_value_text(p.1)
}

/// The wire text of one `key=value` field pair.
pub open spec fn field_pair_text(p: (String, Type), use_v2: bool) -> Seq<char> {
    escaped_chars(p.0@, char_class_set(CharClass::CommaSpaceEq)) + seq!['='] + field_value_text(
        p.1,
        use_v2,
    )
}

/// The tag block of a line: empty for no tags, else a leading comma and
/// the comma-joined pairs.
pub open spec fn tag_block_text(tags: Seq<(String, Type)>) -> Seq<char> {
    if tags.len() == 0 {
        Seq::empty()
    } else {
        seq![','] + joined(tags.map_values(|p: (String, Type)| tag_pair_text(p)), ',')
    }
}

/// The field block of a line: the comma-joined pairs.
pub open spec fn field_block_text(fields: Seq<(String, Type)>, use_v2: bool) -> Seq<char> {
    joined(fields.map_values(|p: (String, Type)| field_pair_text(p, use_v2)), ',')
}

/// The whole wire line of `q`: measurement, tag block, a space, field
/// block, a space, and the bare timestamp magnitude.
pub open spec fn line_text(q: WriteQuery, use_v2: bool) -> Seq<char> {
    escaped_chars(q.measurement@, char_class_set(CharClass::CommaSpace)) + tag_block_text(q.tags@)
        + seq![' '] + field_block_text(q.fields@, use_v2) + seq![' '] + dec_rep(
        q.timestamp.magnitude() as nat,
    )
}

/// The rendered line when the query has at least one field, `None` when
/// it has none and building must fail.
pub open spec fn build_text(q: WriteQuery, use_v2: bool) -> Option<Seq<char>> {
    if q.fields@.len() == 0 {
        None
    } else {
        Some(line_text(q, use_v2))
    }
}

fn render_tag_pairs(tags: &Vec<(String, Type)>) -> (r: String)
    ensures
        r@ == joined(tags@.map_values(|p: (String, Type)| tag_pair_text(p)), ','),
{
    let mut out = String::new();
    let mut i: usize = 0;
    while i < tags.len()
        invariant
            i <= tags@.len(),
            out@ == joined(tags@.take(i as int).map_values(|p: (String, Type)| tag_pair_text(p)), ','),
        decreases tags@.len() - i,
    {
        if i > 0 {
            push_char(&mut out, ',');
        }
        let key = escape_str(tags[i].0.as_str(), CharClass::CommaSpaceEq);
        out.append(key.as_str());
        push_char(&mut out, '=');
        let value = tag_value_string(&tags[i].1);
        out.append(value.as_str());
        proof {
            lemma_joined_snoc(
                tags@.take(i as int).map_values(|p: (String, Type)| tag_pair_text(p)),
                tag_pair_text(tags@[i as int]),
                ',',
            );
            assert(tags@.take(i + 1).map_values(|p: (String, Type)| tag_pair_text(p)) =~= tags@.take(
                i as int,
            ).map_values(|p: (String, Type)| tag_pair_text(p)).push(tag_pair_text(tags@[i as int])));
            assert(out@ =~= joined(
                tags@.take(i + 1).map_values(|p: (String, Type)| tag_pair_text(p)),
                ',',
            ));
        }
        i = i + 1;
    }
    proof {
        assert(tags@.take(tags@.len() as int) =~= tags@);
    }
    out
}

fn render_field_pairs(fields: &Vec<(String, Type)>, use_v2: bool) -> (r: String)
    ensures
        r@ == joined(fields@.map_values(|p: (String, Type)| field_pair_text(p, use_v2)), ','),
{
    let mut out = String::new();
    let mut i: usize = 0;
    while i < fields.len()
        invariant
            i <= fields@.len(),
            out@ == joined(
                fields@.take(i as int).map_values(|p: (String, Type)| field_pair_text(p, use_v2)),
                ',',
            ),
        decreases fields@.len() - i,
    {
        if i > 0 {
            push_char(&mut out, ',');
        }
        let key = escape_str(fields[i].0.as_str(), CharClass::CommaSpaceEq);
        out.append(key.as_str());
        push_char(&mut out, '=');
        let value = field_value_string(&fields[i].1, use_v2);
        out.append(value.as_str());
        proof {
            lemma_joined_snoc(
                fields@.take(i as int).map_values(|p: (String, Type)| field_pair_text(p, use_v2)),
                field_pair_text(fields@[i as int], use_v2),
                ',',
            );
            assert(fields@.take(i + 1).map_values(|p: (String, Type)| field_pair_text(p, use_v2))
                =~= fields@.take(i as int).map_values(
                |p: (String, Type)| field_pair_text(p, use_v2),
            ).push(field_pair_text(fields@[i as int], use_v2)));
            assert(out@ =~= joined(
                fields@.take(i + 1).map_values(|p: (String, Type)| field_pair_text(p, use_v2)),
                ',',
            ));
        }
        i = i + 1;
    }
    proof {
        assert(fields@.take(fields@.len() as int) =~= fields@);
    }
    out
}

impl Query for WriteQuery {
    fn build(&self) -> (r: Result<ValidQuery, Error>)
        ensures
            match r {
                Ok(v) => build_text(*self, false) == Some(v@),
                Err(e) => {
                    &&& build_text(*self, false) is None
                    &&& e matches Error::InvalidQueryError { error } && error@
                        == "fields cannot be empty"@
                },
            },
    {
        self.build_with_opts(false)
    }

    fn build_with_opts(&self, use_v2: bool) -> (r: Result<ValidQuery, Error>)
        ensures
            match r {
                Ok(v) => build_text(*self, use_v2) == Some(v@),
                Err(e) => {
                    &&& build_text(*self, use_v2) is None
                    &&& e matches Error::InvalidQueryError { error } && error@
                        == "fields cannot be empty"@
                },
            },
    {
        if self.fields.len() == 0 {
            return Err(
                Error::InvalidQueryError { error: String::from_str("fields cannot be empty") },
            );
        }
        let mut out = escape_str(self.measurement.as_str(), CharClass::CommaSpace);
        if self.tags.len() > 0 {
            push_char(&mut out, ',');
            let tag_pairs = render_tag_pairs(&self.tags);
            out.append(tag_pairs.as_str());
        }
        push_char(&mut out, ' ');
        let field_pairs = render_field_pairs(&self.fields, use_v2);
        out.append(field_pairs.as_str());
        push_char(&mut out, ' ');
        let ts = format_u128(self.timestamp.magnitude_value());
        out.append(ts.as_str());
        proof {
            assert(out@ =~= line_text(*self, use_v2));
        }
        Ok(ValidQuery::from_text(out))
    }

    fn get_type(&self) -> (r: QueryType)
        ensures
            r matches QueryType::WriteQuery(p) && p@ == self.timestamp.precision_token(),
    {
        QueryType::WriteQuery(self.get_precision())
    }
}

/// Every query in the batch has at least one field.
pub open spec fn all_have_fields(qs: Seq<WriteQuery>) -> bool {
    forall|i: int| 0 <= i < qs.len() ==> (#[trigger] qs[i]).fields@.len() > 0
}

/// The lines of the batch joined with newlines, in batch order.
pub open spec fn batch_text(qs: Seq<WriteQuery>, use_v2: bool) -> Seq<char> {
    joined(qs.map_values(|q: WriteQuery| line_text(q, use_v2)), '\n')
}

impl Query for Vec<WriteQuery> {
    fn build(&self) -> (r: Result<ValidQuery, Error>)
        ensures
            match r {
                Ok(v) => all_have_fields(self@) && v@ == batch_text(self@, false),
                Err(e) => {
                    &&& !all_have_fields(self@)
                    &&& e matches Error::InvalidQueryError { error } && error@
                        == "fields cannot be empty"@
                },
            },
    {
        self.build_with_opts(false)
    }

    fn build_with_opts(&self, use_v2: bool) -> (r: Result<ValidQuery, Error>)
        ensures
            match r {
                Ok(v) => all_have_fields(self@) && v@ == batch_text(self@, use_v2),
                Err(e) => {
                    &&& !all_have_fields(self@)
                    &&& e matches Error::InvalidQueryError { error } && error@
                        == "fields cannot be empty"@
                },
            },
    {
        let mut out = String::new();
        let mut i: usize = 0;
        while i < self.len()
            invariant
                i <= self@.len(),
                all_have_fields(self@.take(i as int)),
                out@ == batch_text(self@.take(i as int), use_v2),
            decreases self@.len() - i,
        {
            match self[i].build_with_opts(use_v2) {
                Ok(line) => {
                    if i > 0 {
                        push_char(&mut out, '\n');
                    }
                    let line_string = line.get();
                    out.append(line_string.as_str());
                    proof {
                        lemma_joined_snoc(
                            self@.take(i as int).map_values(|q: WriteQuery| line_text(q, use_v2)),
                            line_text(self@[i as int], use_v2),
                            '\n',
                        );
                        assert(self@.take(i + 1).map_values(|q: WriteQuery| line_text(q, use_v2))
                            =~= self@.take(i as int).map_values(
                            |q: WriteQuery| line_text(q, use_v2),
                        ).push(line_text(self@[i as int], use_v2)));
                        assert(out@ =~= batch_text(self@.take(i + 1), use_v2));
                        assert(all_have_fields(self@.take(i + 1)));
                    }
                },
                Err(e) => {
                    proof {
                        assert(self@[i as int].fields@.len() == 0);
                        assert(!all_have_fields(self@));
                    }
                    return Err(e);
                },
            }
            i = i + 1;
        }
        proof {
            assert(self@.take(self@.len() as int) =~= self@);
        }
        Ok(ValidQuery::from_text(out))
    }

    fn get_type(&self) -> (r: QueryType)
        ensures
            r matches QueryType::WriteQuery(p) && p@ == if self@.len() > 0 {
                self@[0].timestamp.precision_token()
            } else {
                "ms"@
            },
    {
        if self.len() > 0 {
            QueryType::WriteQuery(self[0].get_precision())
        } else {
            QueryType::WriteQuery(String::from_str("ms"))
        }
    }
}

/// A write query with no fields never renders a line, however many tags
/// it carries.
pub proof fn lemma_empty_fields_never_build(q: WriteQuery, use_v2: bool)
    requires
        q.fields@.len() == 0,
    ensures
        build_text(q, use_v2) is None,
{
}

/// The batch `[q1, q2]` renders as the line of `q1`, a newline, and the
/// line of `q2`.
pub proof fn lemma_batch_pair(q1: WriteQuery, q2: WriteQuery, use_v2: bool)
    ensures
        batch_text(seq![q1, q2], use_v2) == line_text(q1, use_v2) + seq!['\n'] + line_text(
            q2,
            use_v2,
        ),
{
    let lines = seq![q1, q2].map_values(|q: WriteQuery| line_text(q, use_v2));
    assert(lines.len() == 2);
    assert(lines[0] == line_text(q1, use_v2));
    assert(lines[1] == line_text(q2, use_v2));
    assert(lines.drop_first() =~= seq![line_text(q2, use_v2)]);
    assert(lines.drop_first()[0] == line_text(q2, use_v2));
    assert(joined(lines.drop_first(), '\n') == line_text(q2, use_v2));
    assert(joined(lines, '\n') =~= line_text(q1, use_v2) + seq!['\n'] + line_text(q2, use_v2));
}


/// `i` is the position of the first space of `s`.
pub open spec fn is_first_space(s: Seq<char>, i: int) -> bool {
    &&& 0 <= i < s.len()
    &&& s[i] == ' '
    &&& forall|j: int| 0 <= j < i ==> s[j] != ' '
}

/// `i` is the position of the last space of `s`.
pub open spec fn is_last_space(s: Seq<char>, i: int) -> bool {
    &&& 0 <= i < s.len()
    &&& s[i] == ' '
    &&& forall|j: int| i < j < s.len() ==> s[j] != ' '
}

/// Splitting the rendered line of a one-field, one-tag write on its
/// first and its last space recovers the measurement-and-tag block, the
/// field block, and the timestamp exactly. This holds whenever the two
/// blocks are themselves free of spaces; an escaped space (`\ `) or a
/// space inside a quoted text field value still contains a space
/// character, and such lines split differently.
pub proof fn lemma_line_round_trip(q: WriteQuery, use_v2: bool)
    requires
        q.fields@.len() == 1,
        q.tags@.len() == 1,
        ({
            let head = escaped_chars(q.measurement@, char_class_set(CharClass::CommaSpace))
                + tag_block_text(q.tags@);
            forall|i: int| 0 <= i < head.len() ==> head[i] != ' '
        }),
        ({
            let fields = field_block_text(q.fields@, use_v2);
            forall|i: int| 0 <= i < fields.len() ==> fields[i] != ' '
        }),
    ensures
        ({
            let head = escaped_chars(q.measurement@, char_class_set(CharClass::CommaSpace))
                + tag_block_text(q.tags@);
            let fields = field_block_text(q.fields@, use_v2);
            let ts = dec_rep(q.timestamp.magnitude() as nat);
            let line = line_text(q, use_v2);
            &&& line == head + seq![' '] + fields + seq![' '] + ts
            &&& is_first_space(line, head.len() as int)
            &&& is_last_space(line, head.len() as int + 1 + fields.len() as int)
            &&& line.take(head.len() as int) == head
            &&& line.subrange(head.len() as int + 1, head.len() as int + 1 + fields.len() as int) == fields
            &&& line.skip(head.len() as int + 1 + fields.len() as int + 1) == ts
        }),
{
    let head = escaped_chars(q.measurement@, char_class_set(CharClass::CommaSpace))
        + tag_block_text(q.tags@);
    let fields = field_block_text(q.fields@, use_v2);
    let ts = dec_rep(q.timestamp.magnitude() as nat);
    let line = line_text(q, use_v2);
    crate::fmt_num::lemma_dec_rep_no_space(q.timestamp.magnitude() as nat);
    assert(line =~= head + seq![' '] + fields + seq![' '] + ts);
    assert(line[head.len() as int] == ' ');
    assert(line[head.len() as int + 1 + fields.len() as int] == ' ');
    assert(forall|j: int| 0 <= j < head.len() ==> line[j] == head[j]);
    assert(forall|j: int|
        head.len() as int + 1 <= j < head.len() as int + 1 + fields.len() as int ==> line[j] == fields[
            j - (head.len() as int + 1)
        ]);
    assert(forall|j: int|
        head.len() as int + 1 + fields.len() as int + 1 <= j < line.len() ==> line[j] == ts[
            j - (head.len() as int + 1 + fields.len() as int + 1)
        ]);
    assert(line.take(head.len() as int) =~= head);
    assert(line.subrange(head.len() as int + 1, head.len() as int + 1 + fields.len() as int) =~= fields);
    assert(line.skip(head.len() as int + 1 + fields.len() as int + 1) =~= ts);
}

} // verus!
