//! The header-driven row decoder. The wire gives each series one shared
//! header (`columns`) and a flat positional array per row (`values`); the
//! decoder walks header and row in step and synthesizes an object-like
//! sequence of named values for every row, so that record types can read
//! their fields by name with no knowledge of the column order.

use vstd::prelude::*;

use crate::integrations::serde_integration::{
    FromObject, JsonValue, Return, Series, TaggedReturn, TaggedSeries,
};
use crate::text::str_eq;

verus! {

/// What can go wrong while decoding a result payload into series and
/// rows. Each variant names one shape violation.
#[derive(Debug, Clone, PartialEq, Eq)]
pub enum DecodeError {
    /// The decoded node is not a JSON object.
    NotAnObject,
    /// An object key appeared twice; carries the key.
    DuplicateField(String),
    /// An object key that the series shape does not know; carries the key.
    UnknownField(String),
    /// `values` appeared before `columns`, so no header was known yet.
    ValuesBeforeColumns,
    /// `name` was absent from a series object.
    MissingName,
    /// `tags` was absent though the series was decoded as tagged.
    MissingTags,
    /// `name` was not a string.
    BadName,
    /// `tags` was not an object.
    BadTags,
    /// `columns` was not an array of strings.
    BadColumns,
    /// `values` was not an array.
    BadValues,
    /// A row inside `values` was not an array.
    RowNotArray,
    /// A row held fewer values than the header has columns.
    RowTooShort,
    /// A row held more values than the header has columns.
    RowTooLong,
    /// A row (or a tag set) did not decode into the target record type.
    BadRow,
    /// `series` was not an array.
    BadSeries,
    /// `results` was absent or not an array.
    BadResults,
}

impl DecodeError {
    /// The human-readable description of this decode failure.
    pub open spec fn message_spec(self) -> Seq<char> {
        match self {
            DecodeError::NotAnObject => "expected an object"@,
            DecodeError::DuplicateField(k) => "duplicate field "@ + k@,
            DecodeError::UnknownField(k) => "unknown field "@ + k@,
            DecodeError::ValuesBeforeColumns => "series values encountered before columns"@,
            DecodeError::MissingName => "missing field name"@,
            DecodeError::MissingTags => "missing field tags"@,
            DecodeError::BadName => "series name must be a string"@,
            DecodeError::BadTags => "series tags must be an object"@,
            DecodeError::BadColumns => "series columns must be an array of strings"@,
            DecodeError::BadValues => "series values must be an array"@,
            DecodeError::RowNotArray => "row must be an array"@,
            DecodeError::RowTooShort => "next_value_seed called but no value"@,
            DecodeError::RowTooLong => "row longer than the header"@,
            DecodeError::BadRow => "row did not match the target type"@,
            DecodeError::BadSeries => "series must be an array"@,
            DecodeError::BadResults => "missing or malformed results"@,
        }
    }

    /// Renders the description, exactly as [`Self::message_spec`] states.
    pub fn message(&self) -> (r: String)
        ensures
            r@ == self.message_spec(),
    {
        match self {
            DecodeError::NotAnObject => String::from_str("expected an object"),
            DecodeError::DuplicateField(k) => {
                let mut s = String::from_str("duplicate field ");
                s.append(k.as_str());
                s
            },
            DecodeError::UnknownField(k) => {
                let mut s = String::from_str("unknown field ");
                s.append(k.as_str());
                s
            },
            DecodeError::ValuesBeforeColumns => String::from_str(
                "series values encountered before columns",
            ),
            DecodeError::MissingName => String::from_str("missing field name"),
            DecodeError::MissingTags => String::from_str("missing field tags"),
            DecodeError::BadName => String::from_str("series name must be a string"),
            DecodeError::BadTags => String::from_str("series tags must be an object"),
            DecodeError::BadColumns => String::from_str("series columns must be an array of strings"),
            DecodeError::BadValues => String::from_str("series values must be an array"),
            DecodeError::RowNotArray => String::from_str("row must be an array"),
            DecodeError::RowTooShort => String::from_str("next_value_seed called but no value"),
            DecodeError::RowTooLong => String::from_str("row longer than the header"),
            DecodeError::BadRow => String::from_str("row did not match the target type"),
            DecodeError::BadSeries => String::from_str("series must be an array"),
            DecodeError::BadResults => String::from_str("missing or malformed results"),
        }
    }
}

/// An ordered sequence of named values: the object-like shape the decoder
/// synthesizes from a header and a row, and the shape a `tags` object
/// already has. Values are borrowed from the decoded tree.
#[derive(Debug)]
pub struct ObjectMap<'a> {
    pub pairs: Vec<(&'a str, &'a JsonValue)>,
}

impl<'a> View for ObjectMap<'a> {
    type V = Seq<(Seq<char>, JsonValue)>;

    open spec fn view(&self) -> Seq<(Seq<char>, JsonValue)> {
        self.pairs@.map_values(|p: (&str, &JsonValue)| (p.0@, *p.1))
    }
}

/// The value under the first occurrence of `key`, if any.
pub open spec fn lookup_object(ps: Seq<(Seq<char>, JsonValue)>, key: Seq<char>) -> Option<JsonValue>
    decreases ps.len(),
{
    if ps.len() == 0 {
        None
    } else if ps[0].0 == key {
        Some(ps[0].1)
    } else {
        lookup_object(ps.drop_first(), key)
    }
}

proof fn lemma_lookup_object_at(ps: Seq<(Seq<char>, JsonValue)>, key: Seq<char>, i: int)
    requires
        0 <= i < ps.len(),
        ps[i].0 == key,
        forall|k: int| 0 <= k < i ==> (#[trigger] ps[k]).0 != key,
    ensures
        lookup_object(ps, key) == Some(ps[i].1),
    decreases i,
{
    if i == 0 {
    } else {
        assert(ps.drop_first()[i - 1] == ps[i]);
        assert(forall|k: int| 0 <= k < i - 1 ==> (#[trigger] ps.drop_first()[k]).0 != key);
        lemma_lookup_object_at(ps.drop_first(), key, i - 1);
    }
}

proof fn lemma_lookup_object_absent(ps: Seq<(Seq<char>, JsonValue)>, key: Seq<char>)
    requires
        forall|k: int| 0 <= k < ps.len() ==> (#[trigger] ps[k]).0 != key,
    ensures
        lookup_object(ps, key) is None,
    decreases ps.len(),
{
    if ps.len() == 0 {
    } else {
        assert(forall|k: int| 0 <= k < ps.drop_first().len() ==> (#[trigger] ps.drop_first()[k]).0
            != key);
        lemma_lookup_object_absent(ps.drop_first(), key);
    }
}

impl<'a> ObjectMap<'a> {
    /// The value under the first occurrence of `key`, exactly as
    /// [`lookup_object`] states: the answer does not depend on where the
    /// key sits, so a record type may ask for its fields in any order.
    pub fn get(&self, key: &str) -> (r: Option<&'a JsonValue>)
        ensures
            match r {
                Some(v) => lookup_object(self@, key@) == Some(*v),
                None => lookup_object(self@, key@) is None,
            },
    {
        let mut i: usize = 0;
        while i < self.pairs.len()
            invariant
                i <= self.pairs@.len(),
                forall|k: int| 0 <= k < i ==> (#[trigger] self@[k]).0 != key@,
            decreases self.pairs@.len() - i,
        {
            if str_eq(self.pairs[i].0, key) {
                proof {
                    lemma_lookup_object_at(self@, key@, i as int);
                }
                return Some(self.pairs[i].1);
            }
            i = i + 1;
        }
        proof {
            lemma_lookup_object_absent(self@, key@);
        }
        None
    }

    /// How many named values the object holds.
    pub fn len(&self) -> (r: usize)
        ensures
            r == self@.len(),
    {
        self.pairs.len()
    }
}

/// The pseudo-object for one row: position `i` pairs the `i`-th column
/// name with the `i`-th row value.
pub open spec fn zip_columns(columns: Seq<String>, row: Seq<JsonValue>) -> Seq<
    (Seq<char>, JsonValue),
> {
    Seq::new(columns.len(), |i: int| (columns[i]@, row[i]))
}

/// The header-as-key cursor over one row: hands out one (column name,
/// value) pair at a time, advancing a position shared between the header
/// and the row.
pub struct RowCursor<'c, 'a> {
    pub header: &'c Vec<&'a String>,
    pub row: &'a Vec<JsonValue>,
    pub at: usize,
}

impl<'c, 'a> RowCursor<'c, 'a> {
    /// The cursor position stays within the header, and the row is long
    /// enough to answer every header position.
    pub open spec fn wf(self) -> bool {
        &&& self.at <= self.header@.len()
        &&& self.row@.len() >= self.header@.len()
    }

    /// Starts a cursor at the first column.
    pub fn new(header: &'c Vec<&'a String>, row: &'a Vec<JsonValue>) -> (r: Self)
        requires
            row@.len() >= header@.len(),
        ensures
            r.wf(),
            r.header == header,
            r.row == row,
            r.at == 0,
    {
        RowCursor { header, row, at: 0 }
    }

    /// Whether another (column, value) pair remains.
    pub fn has_more(&self) -> (r: bool)
        ensures
            r == (self.at < self.header@.len()),
    {
        self.at < self.header.len()
    }

    /// Hands out the pair at the cursor and advances it.
    pub fn next_pair(&mut self) -> (r: (&'a str, &'a JsonValue))
        requires
            old(self).wf(),
            old(self).at < old(self).header@.len(),
        ensures
            final (self).wf(),
            final (self).header == old(self).header,
            final (self).row == old(self).row,
            final (self).at == old(self).at + 1,
            r.0@ == (*old(self).header@[old(self).at as int])@,
            *r.1 == old(self).row@[old(self).at as int],
    {
        let key: &'a str = self.header[self.at].as_str();
        let value: &'a JsonValue = &self.row[self.at];
        let limit = self.header.len();
        proof {
            assert(self.at < limit);
        }
        self.at = self.at + 1;
        (key, value)
    }
}

/// Builds the pseudo-object for one row by walking a [`RowCursor`] to the
/// end of the header.
pub fn build_row_object<'c, 'a>(header: &'c Vec<&'a String>, row: &'a Vec<JsonValue>) -> (r:
    ObjectMap<'a>)
    requires
        row@.len() >= header@.len(),
    ensures
        r@ == zip_columns(header@.map_values(|s: &String| *s), row@),
{
    let mut cursor = RowCursor::new(header, row);
    let mut pairs: Vec<(&'a str, &'a JsonValue)> = Vec::new();
    while cursor.has_more()
        invariant
            cursor.wf(),
            cursor.header == header,
            cursor.row == row,
            cursor.at == pairs@.len(),
            forall|k: int|
                0 <= k < pairs@.len() ==> (#[trigger] pairs@[k]).0@ == (*header@[k])@ && *pairs@[k].1
                    == row@[k],
        decreases header@.len() - cursor.at,
    {
        let pair = cursor.next_pair();
        pairs.push(pair);
    }
    let result = ObjectMap { pairs };
    proof {
        assert(result@ =~= zip_columns(header@.map_values(|s: &String| *s), row@));
    }
    result
}

/// The strings of an array of JSON text values, when that is what `v`
/// holds: the header a `columns` entry must carry.
pub open spec fn columns_of(v: JsonValue) -> Option<Seq<String>> {
    match v {
        JsonValue::Array(items) => if forall|i: int|
            0 <= i < items@.len() ==> (#[trigger] items@[i]) is Text {
            Some(items@.map_values(|x: JsonValue| x->Text_0))
        } else {
            None
        },
        _ => None,
    }
}

/// Walks the rows of a `values` array front to back: every row must be an
/// array exactly as long as the header; the first offender decides the
/// error.
pub open spec fn rows_check(
    items: Seq<JsonValue>,
    ncols: int,
    acc: Seq<Seq<JsonValue>>,
) -> Result<Seq<Seq<JsonValue>>, DecodeError>
    decreases items.len(),
{
    if items.len() == 0 {
        Ok(acc)
    } else {
        match items[0] {
            JsonValue::Array(row) => if row@.len() < ncols {
                Err(DecodeError::RowTooShort)
            } else if row@.len() > ncols {
                Err(DecodeError::RowTooLong)
            } else {
                rows_check(items.drop_first(), ncols, acc.push(row@))
            },
            _ => Err(DecodeError::RowNotArray),
        }
    }
}

/// The rows of a `values` entry, when it is an array of fitting rows.
pub open spec fn rows_of(v: JsonValue, ncols: int) -> Result<Seq<Seq<JsonValue>>, DecodeError> {
    match v {
        JsonValue::Array(items) => rows_check(items@, ncols, Seq::empty()),
        _ => Err(DecodeError::BadValues),
    }
}

/// Walks the entries of a series object front to back, exactly as the
/// decoder does: each of `name`, `columns`, `values` (and `tags` when
/// `tagged`) may appear at most once, a key outside that set is refused,
/// and `values` is only readable once `columns` has provided the header.
/// An absent `values` degrades to zero rows, never to an error. The first
/// offending entry decides the error.
pub open spec fn series_scan(
    entries: Seq<(String, JsonValue)>,
    tagged: bool,
    name: Option<String>,
    tags: Option<JsonValue>,
    columns: Option<Seq<String>>,
    rows: Option<Seq<Seq<JsonValue>>>,
) -> Result<(String, Option<JsonValue>, Seq<String>, Seq<Seq<JsonValue>>), DecodeError>
    decreases entries.len(),
{
    if entries.len() == 0 {
        match name {
            None => Err(DecodeError::MissingName),
            Some(n) => if tagged && tags is None {
                Err(DecodeError::MissingTags)
            } else {
                Ok(
                    (
                        n,
                        tags,
                        match columns {
                            Some(c) => c,
                            None => Seq::empty(),
                        },
                        match rows {
                            Some(r) => r,
                            None => Seq::empty(),
                        },
                    ),
                )
            },
        }
    } else {
        let k = entries[0].0;
        let v = entries[0].1;
        let rest = entries.drop_first();
        if k@ == "name"@ {
            if name is Some {
                Err(DecodeError::DuplicateField(k))
            } else {
                match v {
                    JsonValue::Text(s) => series_scan(rest, tagged, Some(s), tags, columns, rows),
                    _ => Err(DecodeError::BadName),
                }
            }
        } else if tagged && k@ == "tags"@ {
            if tags is Some {
                Err(DecodeError::DuplicateField(k))
            } else if v is Object {
                series_scan(rest, tagged, name, Some(v), columns, rows)
            } else {
                Err(DecodeError::BadTags)
            }
        } else if k@ == "columns"@ {
            if columns is Some {
                Err(DecodeError::DuplicateField(k))
            } else {
                match columns_of(v) {
                    Some(cols) => series_scan(rest, tagged, name, tags, Some(cols), rows),
                    None => Err(DecodeError::BadColumns),
                }
            }
        } else if k@ == "values"@ {
            if rows is Some {
                Err(DecodeError::DuplicateField(k))
            } else {
                match columns {
                    None => Err(DecodeError::ValuesBeforeColumns),
                    Some(cols) => match rows_of(v, cols.len() as int) {
                        Ok(rs) => series_scan(rest, tagged, name, tags, Some(cols), Some(rs)),
                        Err(e) => Err(e),
                    },
                }
            }
        } else {
            Err(DecodeError::UnknownField(k))
        }
    }
}

/// The decoded parts of one series value: its name, its tags object (for
/// tagged decoding), its header, and its raw rows.
pub open spec fn series_spec(v: JsonValue, tagged: bool) -> Result<
    (String, Option<JsonValue>, Seq<String>, Seq<Seq<JsonValue>>),
    DecodeError,
> {
    match v {
        JsonValue::Object(entries) => series_scan(entries@, tagged, None, None, None, None),
        _ => Err(DecodeError::NotAnObject),
    }
}

/// The scan state a held optional name stands for.
pub open spec fn opt_name(name: Option<&String>) -> Option<String> {
    match name {
        Some(n) => Some(*n),
        None => None,
    }
}

/// The scan state a held optional header stands for.
pub open spec fn opt_cols<'a>(columns: Option<Vec<&'a String>>) -> Option<Seq<String>> {
    match columns {
        Some(cv) => Some(cv@.map_values(|s: &String| *s)),
        None => None,
    }
}

/// The scan state held optional raw rows stand for.
pub open spec fn opt_rows<'a>(rows: Option<Vec<&'a Vec<JsonValue>>>) -> Option<Seq<Seq<JsonValue>>> {
    match rows {
        Some(rv) => Some(rv@.map_values(|x: &Vec<JsonValue>| x@)),
        None => None,
    }
}

#[verifier::loop_isolation(false)]
fn check_columns<'a>(v: &'a JsonValue) -> (r: Option<Vec<&'a String>>)
    ensures
        match columns_of(*v) {
            Some(cols) => r matches Some(cv) && cv@.map_values(|s: &String| *s) == cols,
            None => r is None,
        },
{
    match v {
        JsonValue::Array(items) => {
            let mut out: Vec<&'a String> = Vec::new();
            let mut i: usize = 0;
            while i < items.len()
                invariant
                    i <= items@.len(),
                    out@.len() == i,
                    forall|k: int| 0 <= k < i ==> (#[trigger] items@[k]) is Text,
                    forall|k: int| 0 <= k < i ==> *(#[trigger] out@[k]) == items@[k]->Text_0,
                decreases items@.len() - i,
            {
                match &items[i] {
                    JsonValue::Text(s) => {
                        out.push(s);
                    },
                    _ => {
                        proof {
                            assert(*v == JsonValue::Array(*items));
                            assert(!((items@[i as int]) is Text));
                            assert(columns_of(*v) is None);
                        }
                        return None;
                    },
                }
                i = i + 1;
            }
            proof {
                assert(out@.map_values(|s: &String| *s) =~= items@.map_values(
                    |x: JsonValue| x->Text_0,
                ));
            }
            Some(out)
        },
        _ => None,
    }
}

#[verifier::loop_isolation(false)]
fn check_rows<'a>(v: &'a JsonValue, ncols: usize) -> (r: Result<
    Vec<&'a Vec<JsonValue>>,
    DecodeError,
>)
    ensures
        match rows_of(*v, ncols as int) {
            Ok(rs) => r matches Ok(rv) && rv@.map_values(|x: &Vec<JsonValue>| x@) == rs && forall|
                j: int,
            |
                0 <= j < rv@.len() ==> (#[trigger] rv@[j])@.len() >= ncols,
            Err(e) => r == Err::<Vec<&'a Vec<JsonValue>>, DecodeError>(e),
        },
{
    match v {
        JsonValue::Array(items) => {
            let mut out: Vec<&'a Vec<JsonValue>> = Vec::new();
            let mut i: usize = 0;
            proof {
                assert(items@.skip(0) =~= items@);
                assert(out@.map_values(|x: &Vec<JsonValue>| x@) =~= Seq::<Seq<JsonValue>>::empty());
            }
            while i < items.len()
                invariant
                    i <= items@.len(),
                    out@.len() == i,
                    forall|j: int| 0 <= j < i ==> (#[trigger] out@[j])@.len() >= ncols,
                    rows_check(items@, ncols as int, Seq::empty()) == rows_check(
                        items@.skip(i as int),
                        ncols as int,
                        out@.map_values(|x: &Vec<JsonValue>| x@),
                    ),
                decreases items@.len() - i,
            {
                proof {
                    assert(items@.skip(i as int)[0] == items@[i as int]);
                    assert(items@.skip(i as int).drop_first() =~= items@.skip(i + 1));
                }
                match &items[i] {
                    JsonValue::Array(row) => {
                        if row.len() < ncols {
                            proof {
                                assert(rows_check(
                                    items@.skip(i as int),
                                    ncols as int,
                                    out@.map_values(|x: &Vec<JsonValue>| x@),
                                ) == Err::<Seq<Seq<JsonValue>>, DecodeError>(
                                    DecodeError::RowTooShort,
                                ));
                            }
                            return Err(DecodeError::RowTooShort);
                        }
                        if row.len() > ncols {
                            proof {
                                assert(rows_check(
                                    items@.skip(i as int),
                                    ncols as int,
                                    out@.map_values(|x: &Vec<JsonValue>| x@),
                                ) == Err::<Seq<Seq<JsonValue>>, DecodeError>(
                                    DecodeError::RowTooLong,
                                ));
                            }
                            return Err(DecodeError::RowTooLong);
                        }
                        let ghost pre_map = out@.map_values(|x: &Vec<JsonValue>| x@);
                        out.push(row);
                        proof {
                            assert(row@ == items@[i as int]->Array_0@);
                            assert(out@.map_values(|x: &Vec<JsonValue>| x@) =~= pre_map.push(row@));
                            assert(rows_check(items@.skip(i as int), ncols as int, pre_map)
                                == rows_check(items@.skip(i + 1), ncols as int, pre_map.push(row@)));
                        }
                    },
                    _ => {
                        proof {
                            assert(!((items@[i as int]) is Array));
                            assert(rows_check(
                                items@.skip(i as int),
                                ncols as int,
                                out@.map_values(|x: &Vec<JsonValue>| x@),
                            ) == Err::<Seq<Seq<JsonValue>>, DecodeError>(DecodeError::RowNotArray));
                        }
                        return Err(DecodeError::RowNotArray);
                    },
                }
                i = i + 1;
            }
            proof {
                assert(items@.skip(items@.len() as int) =~= Seq::<JsonValue>::empty());
            }
            Ok(out)
        },
        _ => Err(DecodeError::BadValues),
    }
}

/// Builds one [`ObjectMap`] per raw row by zipping the header onto it.
fn build_row_maps<'a>(columns: &Vec<&'a String>, rows: Vec<&'a Vec<JsonValue>>) -> (r: Vec<
    ObjectMap<'a>,
>)
    requires
        forall|j: int| 0 <= j < rows@.len() ==> (#[trigger] rows@[j])@.len() >= columns@.len(),
    ensures
        r@.len() == rows@.len(),
        forall|j: int|
            0 <= j < rows@.len() ==> (#[trigger] r@[j])@ == zip_columns(
                columns@.map_values(|s: &String| *s),
                rows@[j]@,
            ),
{
    let mut maps: Vec<ObjectMap<'a>> = Vec::new();
    let mut j: usize = 0;
    while j < rows.len()
        invariant
            j <= rows@.len(),
            maps@.len() == j,
            forall|l: int| 0 <= l < rows@.len() ==> (#[trigger] rows@[l])@.len() >= columns@.len(),
            forall|l: int|
                0 <= l < j ==> (#[trigger] maps@[l])@ == zip_columns(
                    columns@.map_values(|s: &String| *s),
                    rows@[l]@,
                ),
        decreases rows@.len() - j,
    {
        let map = build_row_object(columns, rows[j]);
        maps.push(map);
        j = j + 1;
    }
    maps
}

/// Decodes one series value into its name and one [`ObjectMap`] per row:
/// the exact, fully stated core that the generic decoders build on.
#[verifier::loop_isolation(false)]
pub fn decode_series_maps<'a>(v: &'a JsonValue) -> (r: Result<Series<ObjectMap<'a>>, DecodeError>)
    ensures
        match series_spec(*v, false) {
            Ok(parts) => r matches Ok(s) && s.name == parts.0 && s.values@.len() == parts.3.len()
                && forall|j: int|
                0 <= j < parts.3.len() ==> (#[trigger] s.values@[j])@ == zip_columns(
                    parts.2,
                    parts.3[j],
                ),
            Err(e) => r == Err::<Series<ObjectMap<'a>>, DecodeError>(e),
        },
{
    let entries: &'a Vec<(String, JsonValue)> = match v {
        JsonValue::Object(e) => e,
        _ => {
            return Err(DecodeError::NotAnObject);
        },
    };
    let mut name: Option<&'a String> = None;
    let mut columns: Option<Vec<&'a String>> = None;
    let mut rows: Option<Vec<&'a Vec<JsonValue>>> = None;
    let mut i: usize = 0;
    proof {
        assert(entries@.skip(0) =~= entries@);
    }
    while i < entries.len()
        invariant
            i <= entries@.len(),
            series_scan(entries@, false, None, None, None, None) == series_scan(
                entries@.skip(i as int),
                false,
                opt_name(name),
                None,
                opt_cols(columns),
                opt_rows(rows),
            ),
            rows is Some ==> columns is Some,
            match (&columns, &rows) {
                (Some(cv), Some(rv)) => forall|j: int|
                    0 <= j < rv@.len() ==> (#[trigger] rv@[j])@.len() >= cv@.len(),
                _ => true,
            },
        decreases entries@.len() - i,
    {
        proof {
            assert(entries@.skip(i as int)[0] == entries@[i as int]);
            assert(entries@.skip(i as int).drop_first() =~= entries@.skip(i + 1));
        }
        let ghost scan_now = series_scan(
            entries@.skip(i as int),
            false,
            opt_name(name),
            None,
            opt_cols(columns),
            opt_rows(rows),
        );
        let k: &String = &entries[i].0;
        let val: &'a JsonValue = &entries[i].1;
        if str_eq(k.as_str(), "name") {
            if name.is_some() {
                proof {
                    assert(scan_now == Err::<
                        (String, Option<JsonValue>, Seq<String>, Seq<Seq<JsonValue>>),
                        DecodeError,
                    >(DecodeError::DuplicateField(entries@[i as int].0)));
                }
                return Err(DecodeError::DuplicateField(k.clone()));
            }
            match val {
                JsonValue::Text(s) => {
                    name = Some(s);
                },
                _ => {
                    proof {
                        assert(scan_now == Err::<
                            (String, Option<JsonValue>, Seq<String>, Seq<Seq<JsonValue>>),
                            DecodeError,
                        >(DecodeError::BadName));
                    }
                    return Err(DecodeError::BadName);
                },
            }
        } else if str_eq(k.as_str(), "columns") {
            if columns.is_some() {
                proof {
                    assert(scan_now == Err::<
                        (String, Option<JsonValue>, Seq<String>, Seq<Seq<JsonValue>>),
                        DecodeError,
                    >(DecodeError::DuplicateField(entries@[i as int].0)));
                }
                return Err(DecodeError::DuplicateField(k.clone()));
            }
            match check_columns(val) {
                Some(cv) => {
                    columns = Some(cv);
                },
                None => {
                    proof {
                        assert(scan_now == Err::<
                            (String, Option<JsonValue>, Seq<String>, Seq<Seq<JsonValue>>),
                            DecodeError,
                        >(DecodeError::BadColumns));
                    }
                    return Err(DecodeError::BadColumns);
                },
            }
        } else if str_eq(k.as_str(), "values") {
            if rows.is_some() {
                proof {
                    assert(scan_now == Err::<
                        (String, Option<JsonValue>, Seq<String>, Seq<Seq<JsonValue>>),
                        DecodeError,
                    >(DecodeError::DuplicateField(entries@[i as int].0)));
                }
                return Err(DecodeError::DuplicateField(k.clone()));
            }
            match &columns {
                Some(cv) => {
                    match check_rows(val, cv.len()) {
                        Ok(rv) => {
                            rows = Some(rv);
                        },
                        Err(e) => {
                            proof {
                                assert(scan_now == Err::<
                                    (String, Option<JsonValue>, Seq<String>, Seq<Seq<JsonValue>>),
                                    DecodeError,
                                >(e));
                            }
                            return Err(e);
                        },
                    }
                },
                None => {
                    proof {
                        assert(scan_now == Err::<
                            (String, Option<JsonValue>, Seq<String>, Seq<Seq<JsonValue>>),
                            DecodeError,
                        >(DecodeError::ValuesBeforeColumns));
                    }
                    return Err(DecodeError::ValuesBeforeColumns);
                },
            }
        } else {
            proof {
                assert(scan_now == Err::<
                    (String, Option<JsonValue>, Seq<String>, Seq<Seq<JsonValue>>),
                    DecodeError,
                >(DecodeError::UnknownField(entries@[i as int].0)));
            }
            return Err(DecodeError::UnknownField(k.clone()));
        }
        proof {
            assert(series_scan(entries@, false, None, None, None, None) == series_scan(
                entries@.skip(i + 1),
                false,
                opt_name(name),
                None,
                opt_cols(columns),
                opt_rows(rows),
            ));
        }
        i = i + 1;
    }
    proof {
        assert(entries@.skip(entries@.len() as int) =~= Seq::<(String, JsonValue)>::empty());
    }
    let found_name: &'a String = match name {
        Some(n) => n,
        None => {
            return Err(DecodeError::MissingName);
        },
    };
    let columns_vec: Vec<&'a String>;
    match columns {
        Some(cv) => {
            columns_vec = cv;
        },
        None => {
            columns_vec = Vec::new();
            proof {
                assert(columns_vec@.map_values(|s: &String| *s) =~= Seq::<String>::empty());
            }
        },
    }
    let rows_vec: Vec<&'a Vec<JsonValue>>;
    match rows {
        Some(rv) => {
            rows_vec = rv;
        },
        None => {
            rows_vec = Vec::new();
            proof {
                assert(rows_vec@.map_values(|x: &Vec<JsonValue>| x@) =~= Seq::<
                    Seq<JsonValue>,
                >::empty());
            }
        },
    }
    let values = build_row_maps(&columns_vec, rows_vec);
    Ok(Series { name: found_name.clone(), values })
}


/// The scan state a held optional tags object stands for.
pub open spec fn opt_tags<'a>(tags: Option<&'a Vec<(String, JsonValue)>>) -> Option<JsonValue> {
    match tags {
        Some(te) => Some(JsonValue::Object(*te)),
        None => None,
    }
}

/// Reads an object's entries as an [`ObjectMap`].
#[verifier::loop_isolation(false)]
fn object_map_from<'a>(entries: &'a Vec<(String, JsonValue)>) -> (r: ObjectMap<'a>)
    ensures
        r@ == entries@.map_values(|p: (String, JsonValue)| (p.0@, p.1)),
{
    let mut pairs: Vec<(&'a str, &'a JsonValue)> = Vec::new();
    let mut i: usize = 0;
    while i < entries.len()
        invariant
            i <= entries@.len(),
            pairs@.len() == i,
            forall|k: int|
                0 <= k < i ==> (#[trigger] pairs@[k]).0@ == entries@[k].0@ && *pairs@[k].1
                    == entries@[k].1,
        decreases entries@.len() - i,
    {
        pairs.push((entries[i].0.as_str(), &entries[i].1));
        i = i + 1;
    }
    let r = ObjectMap { pairs };
    proof {
        assert(r@ =~= entries@.map_values(|p: (String, JsonValue)| (p.0@, p.1)));
    }
    r
}

/// Decodes one series value of a grouped result: its name, its tags as an
/// [`ObjectMap`], and one [`ObjectMap`] per row.
#[verifier::loop_isolation(false)]
pub fn decode_tagged_series_maps<'a>(v: &'a JsonValue) -> (r: Result<
    TaggedSeries<ObjectMap<'a>, ObjectMap<'a>>,
    DecodeError,
>)
    ensures
        match series_spec(*v, true) {
            Ok(parts) => r matches Ok(s) && s.name == parts.0 && (parts.1 matches Some(tv)
                && tv matches JsonValue::Object(te) && s.tags@ == te@.map_values(
                |p: (String, JsonValue)| (p.0@, p.1),
            )) && s.values@.len() == parts.3.len() && forall|j: int|
                0 <= j < parts.3.len() ==> (#[trigger] s.values@[j])@ == zip_columns(
                    parts.2,
                    parts.3[j],
                ),
            Err(e) => r == Err::<TaggedSeries<ObjectMap<'a>, ObjectMap<'a>>, DecodeError>(e),
        },
{
    let entries: &'a Vec<(String, JsonValue)> = match v {
        JsonValue::Object(e) => e,
        _ => {
            return Err(DecodeError::NotAnObject);
        },
    };
    let mut name: Option<&'a String> = None;
    let mut tags: Option<&'a Vec<(String, JsonValue)>> = None;
    let mut columns: Option<Vec<&'a String>> = None;
    let mut rows: Option<Vec<&'a Vec<JsonValue>>> = None;
    let mut i: usize = 0;
    proof {
        assert(entries@.skip(0) =~= entries@);
    }
    while i < entries.len()
        invariant
            i <= entries@.len(),
            series_scan(entries@, true, None, None, None, None) == series_scan(
                entries@.skip(i as int),
                true,
                opt_name(name),
                opt_tags(tags),
                opt_cols(columns),
                opt_rows(rows),
            ),
            rows is Some ==> columns is Some,
            match (&columns, &rows) {
                (Some(cv), Some(rv)) => forall|j: int|
                    0 <= j < rv@.len() ==> (#[trigger] rv@[j])@.len() >= cv@.len(),
                _ => true,
            },
        decreases entries@.len() - i,
    {
        proof {
            assert(entries@.skip(i as int)[0] == entries@[i as int]);
            assert(entries@.skip(i as int).drop_first() =~= entries@.skip(i + 1));
        }
        let ghost scan_now = series_scan(
            entries@.skip(i as int),
            true,
            opt_name(name),
            opt_tags(tags),
            opt_cols(columns),
            opt_rows(rows),
        );
        let k: &String = &entries[i].0;
        let val: &'a JsonValue = &entries[i].1;
        if str_eq(k.as_str(), "name") {
            if name.is_some() {
                return Err(DecodeError::DuplicateField(k.clone()));
            }
            match val {
                JsonValue::Text(s) => {
                    name = Some(s);
                },
                _ => {
                    return Err(DecodeError::BadName);
                },
            }
        } else if str_eq(k.as_str(), "tags") {
            if tags.is_some() {
                return Err(DecodeError::DuplicateField(k.clone()));
            }
            match val {
                JsonValue::Object(te) => {
                    tags = Some(te);
                },
                _ => {
                    return Err(DecodeError::BadTags);
                },
            }
        } else if str_eq(k.as_str(), "columns") {
            if columns.is_some() {
                return Err(DecodeError::DuplicateField(k.clone()));
            }
            match check_columns(val) {
                Some(cv) => {
                    columns = Some(cv);
                },
                None => {
                    return Err(DecodeError::BadColumns);
                },
            }
        } else if str_eq(k.as_str(), "values") {
            if rows.is_some() {
                return Err(DecodeError::DuplicateField(k.clone()));
            }
            match &columns {
                Some(cv) => {
                    match check_rows(val, cv.len()) {
                        Ok(rv) => {
                            rows = Some(rv);
                        },
                        Err(e) => {
                            return Err(e);
                        },
                    }
                },
                None => {
                    return Err(DecodeError::ValuesBeforeColumns);
                },
            }
        } else {
            return Err(DecodeError::UnknownField(k.clone()));
        }
        i = i + 1;
    }
    proof {
        assert(entries@.skip(entries@.len() as int) =~= Seq::<(String, JsonValue)>::empty());
    }
    let found_name: &'a String = match name {
        Some(n) => n,
        None => {
            return Err(DecodeError::MissingName);
        },
    };
    let tag_entries: &'a Vec<(String, JsonValue)> = match tags {
        Some(te) => te,
        None => {
            return Err(DecodeError::MissingTags);
        },
    };
    let rows_vec: Vec<&'a Vec<JsonValue>>;
    match rows {
        Some(rv) => {
            rows_vec = rv;
        },
        None => {
            rows_vec = Vec::new();
            proof {
                assert(rows_vec@.map_values(|x: &Vec<JsonValue>| x@) =~= Seq::<
                    Seq<JsonValue>,
                >::empty());
            }
        },
    }
    let columns_vec: Vec<&'a String>;
    match columns {
        Some(cv) => {
            columns_vec = cv;
        },
        None => {
            columns_vec = Vec::new();
            proof {
                assert(columns_vec@.map_values(|s: &String| *s) =~= Seq::<String>::empty());
            }
        },
    }
    let tag_map = object_map_from(tag_entries);
    let values = build_row_maps(&columns_vec, rows_vec);
    Ok(TaggedSeries { name: found_name.clone(), tags: tag_map, values })
}

/// Decodes one series value into the caller's record type, one record
/// per row, reading each row's fields by column name.
#[verifier::loop_isolation(false)]
pub fn decode_series<'a, T: FromObject>(v: &'a JsonValue) -> (r: Result<Series<T>, DecodeError>)
    ensures
        match series_spec(*v, false) {
            Ok(parts) => match r {
                Ok(s) => s.name == parts.0 && s.values@.len() == parts.3.len(),
                Err(e) => e == DecodeError::BadRow && parts.3.len() > 0,
            },
            Err(e) => r == Err::<Series<T>, DecodeError>(e),
        },
{
    match decode_series_maps(v) {
        Ok(s) => {
            let mut values: Vec<T> = Vec::new();
            let mut i: usize = 0;
            while i < s.values.len()
                invariant
                    i <= s.values@.len(),
                    values@.len() == i,
                decreases s.values@.len() - i,
            {
                match T::from_object(&s.values[i]) {
                    Some(t) => {
                        values.push(t);
                    },
                    None => {
                        return Err(DecodeError::BadRow);
                    },
                }
                i = i + 1;
            }
            Ok(Series { name: s.name, values })
        },
        Err(e) => Err(e),
    }
}

/// Decodes one series value of a grouped result into the caller's tag and
/// row record types.
#[verifier::loop_isolation(false)]
pub fn decode_tagged_series<'a, TAG: FromObject, T: FromObject>(v: &'a JsonValue) -> (r: Result<
    TaggedSeries<TAG, T>,
    DecodeError,
>)
    ensures
        match series_spec(*v, true) {
            Ok(parts) => match r {
                Ok(s) => s.name == parts.0 && s.values@.len() == parts.3.len(),
                Err(e) => e == DecodeError::BadRow,
            },
            Err(e) => r == Err::<TaggedSeries<TAG, T>, DecodeError>(e),
        },
{
    match decode_tagged_series_maps(v) {
        Ok(s) => {
            let tags: TAG = match TAG::from_object(&s.tags) {
                Some(t) => t,
                None => {
                    return Err(DecodeError::BadRow);
                },
            };
            let mut values: Vec<T> = Vec::new();
            let mut i: usize = 0;
            while i < s.values.len()
                invariant
                    i <= s.values@.len(),
                    values@.len() == i,
                decreases s.values@.len() - i,
            {
                match T::from_object(&s.values[i]) {
                    Some(t) => {
                        values.push(t);
                    },
                    None => {
                        return Err(DecodeError::BadRow);
                    },
                }
                i = i + 1;
            }
            Ok(TaggedSeries { name: s.name, tags, values })
        },
        Err(e) => Err(e),
    }
}

/// Walks the entries of one statement's result object, exactly as the
/// decoder does: `series` may appear at most once and must be an array;
/// every other key is ignored; an absent `series` stands for no series
/// at all, not an error.
pub open spec fn return_scan(entries: Seq<(String, JsonValue)>, series: Option<Seq<JsonValue>>) -> Result<
    Seq<JsonValue>,
    DecodeError,
>
    decreases entries.len(),
{
    if entries.len() == 0 {
        Ok(
            match series {
                Some(s) => s,
                None => Seq::empty(),
            },
        )
    } else {
        let k = entries[0].0;
        let v = entries[0].1;
        let rest = entries.drop_first();
        if k@ == "series"@ {
            if series is Some {
                Err(DecodeError::DuplicateField(k))
            } else {
                match v {
                    JsonValue::Array(items) => return_scan(rest, Some(items@)),
                    _ => Err(DecodeError::BadSeries),
                }
            }
        } else {
            return_scan(rest, series)
        }
    }
}

proof fn lemma_scan_no_series(entries: Seq<(String, JsonValue)>, series: Option<Seq<JsonValue>>)
    requires
        forall|j: int| 0 <= j < entries.len() ==> (#[trigger] entries[j]).0@ != "series"@,
    ensures
        return_scan(entries, series) == Ok::<Seq<JsonValue>, DecodeError>(
            match series {
                Some(s) => s,
                None => Seq::empty(),
            },
        ),
    decreases entries.len(),
{
    if entries.len() == 0 {
    } else {
        assert(forall|j: int|
            0 <= j < entries.drop_first().len() ==> (#[trigger] entries.drop_first()[j]).0@
                != "series"@);
        lemma_scan_no_series(entries.drop_first(), series);
    }
}

/// A result object whose one `series` entry holds no series at all
/// decodes to zero series, never to an error.
pub proof fn lemma_empty_series_decodes_to_no_series(entries: Seq<(String, JsonValue)>, i: int)
    requires
        0 <= i < entries.len(),
        entries[i].0@ == "series"@,
        entries[i].1 matches JsonValue::Array(items) && items@.len() == 0,
        forall|j: int| 0 <= j < entries.len() && j != i ==> (#[trigger] entries[j]).0@ != "series"@,
    ensures
        return_scan(entries, None) == Ok::<Seq<JsonValue>, DecodeError>(Seq::empty()),
    decreases i,
{
    if i == 0 {
        assert(forall|j: int|
            0 <= j < entries.drop_first().len() ==> (#[trigger] entries.drop_first()[j]).0@
                != "series"@);
        lemma_scan_no_series(entries.drop_first(), Some(entries[0].1->Array_0@));
        assert(entries[0].1->Array_0@ =~= Seq::<JsonValue>::empty());
    } else {
        assert(entries[0].0@ != "series"@);
        assert(entries.drop_first()[i - 1] == entries[i]);
        assert(forall|j: int|
            0 <= j < entries.drop_first().len() && j != i - 1 ==> (
            #[trigger] entries.drop_first()[j]).0@ != "series"@);
        lemma_empty_series_decodes_to_no_series(entries.drop_first(), i - 1);
    }
}

/// The series values of one statement's result object.
pub open spec fn return_spec(v: JsonValue) -> Result<Seq<JsonValue>, DecodeError> {
    match v {
        JsonValue::Object(entries) => return_scan(entries@, None),
        _ => Err(DecodeError::NotAnObject),
    }
}

/// Decodes the listed series values front to back; the first offender
/// decides the error.
pub open spec fn all_series_scan(
    items: Seq<JsonValue>,
    tagged: bool,
    acc: Seq<(String, Option<JsonValue>, Seq<String>, Seq<Seq<JsonValue>>)>,
) -> Result<Seq<(String, Option<JsonValue>, Seq<String>, Seq<Seq<JsonValue>>)>, DecodeError>
    decreases items.len(),
{
    if items.len() == 0 {
        Ok(acc)
    } else {
        match series_spec(items[0], tagged) {
            Ok(p) => all_series_scan(items.drop_first(), tagged, acc.push(p)),
            Err(e) => Err(e),
        }
    }
}

proof fn lemma_all_series_acc_prefix(
    items: Seq<JsonValue>,
    tagged: bool,
    acc: Seq<(String, Option<JsonValue>, Seq<String>, Seq<Seq<JsonValue>>)>,
)
    requires
        all_series_scan(items, tagged, acc) is Ok,
    ensures
        ({
            let ss = all_series_scan(items, tagged, acc)->Ok_0;
            &&& ss.len() >= acc.len()
            &&& forall|i: int| 0 <= i < acc.len() ==> #[trigger] ss[i] == acc[i]
        }),
    decreases items.len(),
{
    if items.len() == 0 {
    } else {
        lemma_all_series_acc_prefix(
            items.drop_first(),
            tagged,
            acc.push(series_spec(items[0], tagged)->Ok_0),
        );
    }
}

/// The fully decoded shape of one statement's result: the parts of each
/// series, in order.
pub open spec fn return_parts_spec(v: JsonValue, tagged: bool) -> Result<
    Seq<(String, Option<JsonValue>, Seq<String>, Seq<Seq<JsonValue>>)>,
    DecodeError,
> {
    match return_spec(v) {
        Ok(items) => all_series_scan(items, tagged, Seq::empty()),
        Err(e) => Err(e),
    }
}

/// Finds the series array of one statement's result object, mirroring
/// [`return_scan`].
#[verifier::loop_isolation(false)]
fn find_series<'a>(v: &'a JsonValue) -> (r: Result<Option<&'a Vec<JsonValue>>, DecodeError>)
    ensures
        match return_spec(*v) {
            Ok(items) => r matches Ok(f) && items == match f {
                Some(iv) => iv@,
                None => Seq::<JsonValue>::empty(),
            },
            Err(e) => r == Err::<Option<&'a Vec<JsonValue>>, DecodeError>(e),
        },
{
    let entries: &'a Vec<(String, JsonValue)> = match v {
        JsonValue::Object(e) => e,
        _ => {
            return Err(DecodeError::NotAnObject);
        },
    };
    let mut found: Option<&'a Vec<JsonValue>> = None;
    let mut i: usize = 0;
    proof {
        assert(entries@.skip(0) =~= entries@);
    }
    while i < entries.len()
        invariant
            i <= entries@.len(),
            return_scan(entries@, None) == return_scan(
                entries@.skip(i as int),
                match found {
                    Some(iv) => Some(iv@),
                    None => None,
                },
            ),
        decreases entries@.len() - i,
    {
        proof {
            assert(entries@.skip(i as int)[0] == entries@[i as int]);
            assert(entries@.skip(i as int).drop_first() =~= entries@.skip(i + 1));
        }
        let k: &String = &entries[i].0;
        let val: &'a JsonValue = &entries[i].1;
        if str_eq(k.as_str(), "series") {
            if found.is_some() {
                return Err(DecodeError::DuplicateField(k.clone()));
            }
            match val {
                JsonValue::Array(items) => {
                    found = Some(items);
                },
                _ => {
                    return Err(DecodeError::BadSeries);
                },
            }
        }
        i = i + 1;
    }
    proof {
        assert(entries@.skip(entries@.len() as int) =~= Seq::<(String, JsonValue)>::empty());
    }
    Ok(found)
}

/// Decodes one statement's result into the caller's record type: every
/// series, every row.
#[verifier::loop_isolation(false)]
pub fn decode_return<'a, T: FromObject>(v: &'a JsonValue) -> (r: Result<Return<T>, DecodeError>)
    ensures
        match return_parts_spec(*v, false) {
            Ok(ss) => match r {
                Ok(ret) => ret.series@.len() == ss.len() && forall|i: int|
                    0 <= i < ss.len() ==> (#[trigger] ret.series@[i]).name == ss[i].0
                        && ret.series@[i].values@.len() == ss[i].3.len(),
                Err(e) => e == DecodeError::BadRow && exists|i: int|
                    0 <= i < ss.len() && (#[trigger] ss[i]).3.len() > 0,
            },
            Err(e) => r matches Err(e2) && (e2 == e || e2 == DecodeError::BadRow),
        },
{
    let items: &'a Vec<JsonValue> = match find_series(v) {
        Ok(Some(iv)) => iv,
        Ok(None) => {
            proof {
                assert(all_series_scan(Seq::<JsonValue>::empty(), false, Seq::empty())
                    == Ok::<Seq<(String, Option<JsonValue>, Seq<String>, Seq<Seq<JsonValue>>)>, DecodeError>(Seq::empty()));
            }
            return Ok(Return { series: Vec::new() });
        },
        Err(e) => {
            return Err(e);
        },
    };
    let mut series: Vec<Series<T>> = Vec::new();
    let ghost mut parts_acc: Seq<(String, Option<JsonValue>, Seq<String>, Seq<Seq<JsonValue>>)> =
        Seq::empty();
    let mut j: usize = 0;
    proof {
        assert(items@.skip(0) =~= items@);
    }
    while j < items.len()
        invariant
            j <= items@.len(),
            series@.len() == j,
            parts_acc.len() == j,
            all_series_scan(items@, false, Seq::empty()) == all_series_scan(
                items@.skip(j as int),
                false,
                parts_acc,
            ),
            forall|i: int|
                0 <= i < j ==> (#[trigger] series@[i]).name == parts_acc[i].0
                    && series@[i].values@.len() == parts_acc[i].3.len(),
        decreases items@.len() - j,
    {
        proof {
            assert(items@.skip(j as int)[0] == items@[j as int]);
            assert(items@.skip(j as int).drop_first() =~= items@.skip(j + 1));
        }
        match decode_series::<T>(&items[j]) {
            Ok(s) => {
                series.push(s);
                proof {
                    parts_acc = parts_acc.push(series_spec(items@[j as int], false)->Ok_0);
                }
            },
            Err(e) => {
                proof {
                    if series_spec(items@[j as int], false) is Ok {
                        let parts = series_spec(items@[j as int], false)->Ok_0;
                        assert(all_series_scan(items@.skip(j as int), false, parts_acc)
                            == all_series_scan(items@.skip(j + 1), false, parts_acc.push(parts)));
                        if all_series_scan(items@.skip(j + 1), false, parts_acc.push(parts)) is Ok {
                            lemma_all_series_acc_prefix(
                                items@.skip(j + 1),
                                false,
                                parts_acc.push(parts),
                            );
                            let ss = all_series_scan(items@, false, Seq::empty())->Ok_0;
                            assert(ss[j as int] == parts);
                            assert(ss[j as int].3.len() > 0);
                        }
                    }
                }
                return Err(e);
            },
        }
        j = j + 1;
    }
    proof {
        assert(items@.skip(items@.len() as int) =~= Seq::<JsonValue>::empty());
    }
    Ok(Return { series })
}

/// Decodes one statement's grouped result into the caller's tag and row
/// record types.
#[verifier::loop_isolation(false)]
pub fn decode_tagged_return<'a, TAG: FromObject, T: FromObject>(v: &'a JsonValue) -> (r: Result<
    TaggedReturn<TAG, T>,
    DecodeError,
>)
    ensures
        match return_parts_spec(*v, true) {
            Ok(ss) => match r {
                Ok(ret) => ret.series@.len() == ss.len() && forall|i: int|
                    0 <= i < ss.len() ==> (#[trigger] ret.series@[i]).name == ss[i].0
                        && ret.series@[i].values@.len() == ss[i].3.len(),
                Err(e) => e == DecodeError::BadRow && ss.len() > 0,
            },
            Err(e) => r matches Err(e2) && (e2 == e || e2 == DecodeError::BadRow),
        },
{
    let items: &'a Vec<JsonValue> = match find_series(v) {
        Ok(Some(iv)) => iv,
        Ok(None) => {
            proof {
                assert(all_series_scan(Seq::<JsonValue>::empty(), true, Seq::empty())
                    == Ok::<Seq<(String, Option<JsonValue>, Seq<String>, Seq<Seq<JsonValue>>)>, DecodeError>(Seq::empty()));
            }
            return Ok(TaggedReturn { series: Vec::new() });
        },
        Err(e) => {
            return Err(e);
        },
    };
    let mut series: Vec<TaggedSeries<TAG, T>> = Vec::new();
    let ghost mut parts_acc: Seq<(String, Option<JsonValue>, Seq<String>, Seq<Seq<JsonValue>>)> =
        Seq::empty();
    let mut j: usize = 0;
    proof {
        assert(items@.skip(0) =~= items@);
    }
    while j < items.len()
        invariant
            j <= items@.len(),
            series@.len() == j,
            parts_acc.len() == j,
            all_series_scan(items@, true, Seq::empty()) == all_series_scan(
                items@.skip(j as int),
                true,
                parts_acc,
            ),
            forall|i: int|
                0 <= i < j ==> (#[trigger] series@[i]).name == parts_acc[i].0
                    && series@[i].values@.len() == parts_acc[i].3.len(),
        decreases items@.len() - j,
    {
        proof {
            assert(items@.skip(j as int)[0] == items@[j as int]);
            assert(items@.skip(j as int).drop_first() =~= items@.skip(j + 1));
        }
        match decode_tagged_series::<TAG, T>(&items[j]) {
            Ok(s) => {
                series.push(s);
                proof {
                    parts_acc = parts_acc.push(series_spec(items@[j as int], true)->Ok_0);
                }
            },
            Err(e) => {
                proof {
                    if series_spec(items@[j as int], true) is Ok {
                        let parts = series_spec(items@[j as int], true)->Ok_0;
                        assert(all_series_scan(items@.skip(j as int), true, parts_acc)
                            == all_series_scan(items@.skip(j + 1), true, parts_acc.push(parts)));
                        if all_series_scan(items@.skip(j + 1), true, parts_acc.push(parts)) is Ok {
                            lemma_all_series_acc_prefix(
                                items@.skip(j + 1),
                                true,
                                parts_acc.push(parts),
                            );
                        }
                    }
                }
                return Err(e);
            },
        }
        j = j + 1;
    }
    proof {
        assert(items@.skip(items@.len() as int) =~= Seq::<JsonValue>::empty());
    }
    Ok(TaggedReturn { series })
}

proof fn lemma_scan_columns_aux(
    entries: Seq<(String, JsonValue)>,
    tagged: bool,
    name: Option<String>,
    tags: Option<JsonValue>,
    rows: Option<Seq<Seq<JsonValue>>>,
    i: int,
)
    requires
        series_scan(entries, tagged, name, tags, None, rows) is Ok,
        0 <= i < entries.len(),
        entries[i].0@ == "values"@,
    ensures
        exists|j: int| 0 <= j < i && (#[trigger] entries[j]).0@ == "columns"@,
    decreases entries.len(),
{
    broadcast use vstd::string::group_string_axioms;

    reveal_strlit("name");
    reveal_strlit("tags");
    reveal_strlit("columns");
    reveal_strlit("values");
    let k = entries[0].0;
    let v = entries[0].1;
    if i == 0 {
        assert(k@ == "values"@);
        assert("values"@.len() == 6);
        assert("name"@.len() == 4);
        assert("values"@ != "name"@);
        assert("values"@ != "tags"@);
        assert("values"@ != "columns"@);
        assert(series_scan(entries, tagged, name, tags, None, rows) is Err);
        assert(false);
    } else if k@ == "columns"@ {
        assert(entries[0].0@ == "columns"@);
    } else {
        assert(entries.drop_first()[i - 1] == entries[i]);
        if k@ == "name"@ {
            assert(series_scan(entries, tagged, name, tags, None, rows) == series_scan(
                entries.drop_first(),
                tagged,
                Some(v->Text_0),
                tags,
                None,
                rows,
            ));
            lemma_scan_columns_aux(entries.drop_first(), tagged, Some(v->Text_0), tags, rows, i - 1);
        } else if tagged && k@ == "tags"@ {
            assert(series_scan(entries, tagged, name, tags, None, rows) == series_scan(
                entries.drop_first(),
                tagged,
                name,
                Some(v),
                None,
                rows,
            ));
            lemma_scan_columns_aux(entries.drop_first(), tagged, name, Some(v), rows, i - 1);
        } else {
            assert(series_scan(entries, tagged, name, tags, None, rows) is Err);
            assert(false);
        }
        let j0 = choose|j0: int|
            0 <= j0 < i - 1 && (#[trigger] entries.drop_first()[j0]).0@ == "columns"@;
        assert(entries[j0 + 1].0@ == "columns"@);
    }
}

/// When a series object decodes successfully, its header came before its
/// rows: every `values` entry has a `columns` entry strictly before it in
/// source order.
pub proof fn lemma_columns_precede_values(entries: Seq<(String, JsonValue)>, tagged: bool, i: int)
    requires
        series_scan(entries, tagged, None, None, None, None) is Ok,
        0 <= i < entries.len(),
        entries[i].0@ == "values"@,
    ensures
        exists|j: int| 0 <= j < i && (#[trigger] entries[j]).0@ == "columns"@,
{
    lemma_scan_columns_aux(entries, tagged, None, None, None, i);
}

} // verus!
