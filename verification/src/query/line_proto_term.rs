//! InfluxDB line-protocol escaping: each lexical role of the line has its
//! own set of reserved characters, and escaping inserts a backslash before
//! every occurrence of one of them.

use vstd::prelude::*;

use crate::fmt_num::{dec_rep, dec_rep_signed, format_i64, format_u64};
use crate::query::write_query::Type;
use crate::text::push_char;

verus! {

/// Which characters a lexical role must escape.
#[derive(Debug, Clone, Copy, PartialEq, Eq, Structural)]
pub enum CharClass {
    /// Comma and space: reserved in measurement names.
    CommaSpace,
    /// Comma, space and `=`: reserved in tag and field keys.
    CommaSpaceEq,
    /// Backslash, comma, space, `=` and `"`: reserved in tag values.
    TagValueSpecials,
    /// `"` and backslash: reserved inside a quoted field value.
    QuoteSlash,
}

/// The set of characters a class stands for.
pub open spec fn char_class_set(cs: CharClass) -> Set<char> {
    match cs {
        CharClass::CommaSpace => set![',', ' '],
        CharClass::CommaSpaceEq => set![',', ' ', '='],
        CharClass::TagValueSpecials => set!['\\', ',', ' ', '=', '"'],
        CharClass::QuoteSlash => set!['"', '\\'],
    }
}

fn in_class(c: char, cs: CharClass) -> (r: bool)
    ensures
        r == char_class_set(cs).contains(c),
{
    match cs {
        CharClass::CommaSpace => c == ',' || c == ' ',
        CharClass::CommaSpaceEq => c == ',' || c == ' ' || c == '=',
        CharClass::TagValueSpecials => c == '\\' || c == ',' || c == ' ' || c == '=' || c == '"',
        CharClass::QuoteSlash => c == '"' || c == '\\',
    }
}

/// `s` with a backslash inserted before every character of `special`.
pub open spec fn escaped_chars(s: Seq<char>, special: Set<char>) -> Seq<char>
    decreases s.len(),
{
    if s.len() == 0 {
        Seq::empty()
    } else {
        (if special.contains(s[0]) {
            seq!['\\', s[0]]
        } else {
            seq![s[0]]
        }) + escaped_chars(s.drop_first(), special)
    }
}

/// Escaping one more character appends its (possibly escaped) rendering.
pub proof fn lemma_escaped_snoc(s: Seq<char>, c: char, special: Set<char>)
    ensures
        escaped_chars(s.push(c), special) == escaped_chars(s, special) + (if special.contains(c) {
            seq!['\\', c]
        } else {
            seq![c]
        }),
    decreases s.len(),
{
    if s.len() == 0 {
        assert(s.push(c)[0] == c);
        assert(s.push(c).drop_first() =~= Seq::<char>::empty());
        assert(escaped_chars(s.push(c).drop_first(), special) == Seq::<char>::empty());
        assert(escaped_chars(s, special) == Seq::<char>::empty());
        assert(escaped_chars(s.push(c), special) =~= escaped_chars(s, special) + (if special.contains(c) {
            seq!['\\', c]
        } else {
            seq![c]
        }));
    } else {
        assert(s.push(c).drop_first() =~= s.drop_first().push(c));
        lemma_escaped_snoc(s.drop_first(), c, special);
        assert(s.push(c)[0] == s[0]);
        assert(escaped_chars(s.push(c), special) =~= escaped_chars(s, special) + (if special.contains(c) {
            seq!['\\', c]
        } else {
            seq![c]
        }));
    }
}

/// Escaping distributes over concatenation.
pub proof fn lemma_escaped_append(a: Seq<char>, b: Seq<char>, special: Set<char>)
    ensures
        escaped_chars(a + b, special) == escaped_chars(a, special) + escaped_chars(b, special),
    decreases a.len(),
{
    if a.len() == 0 {
        assert(a + b =~= b);
        assert(escaped_chars(a, special) =~= Seq::<char>::empty());
        assert(escaped_chars(a + b, special) =~= escaped_chars(a, special) + escaped_chars(
            b,
            special,
        ));
    } else {
        assert((a + b).drop_first() =~= a.drop_first() + b);
        assert((a + b)[0] == a[0]);
        lemma_escaped_append(a.drop_first(), b, special);
        assert(escaped_chars(a + b, special) =~= escaped_chars(a, special) + escaped_chars(
            b,
            special,
        ));
    }
}

/// Escaping is the identity on text free of the special characters.
pub proof fn lemma_escape_identity(s: Seq<char>, special: Set<char>)
    requires
        forall|i: int| 0 <= i < s.len() ==> !special.contains(#[trigger] s[i]),
    ensures
        escaped_chars(s, special) == s,
    decreases s.len(),
{
    if s.len() == 0 {
        assert(escaped_chars(s, special) =~= s);
    } else {
        lemma_escape_identity(s.drop_first(), special);
        assert(escaped_chars(s, special) =~= s);
    }
}

/// Each special character of `s` shows up in the escaped text with a
/// backslash immediately before it: at the position right after the
/// escaped prefix of everything before it.
pub proof fn lemma_escape_marks(s: Seq<char>, special: Set<char>, i: int)
    requires
        0 <= i < s.len(),
        special.contains(s[i]),
    ensures
        ({
            let p = escaped_chars(s.take(i), special).len();
            &&& escaped_chars(s, special)[p as int] == '\\'
            &&& escaped_chars(s, special)[p as int + 1] == s[i]
        }),
{
    assert(s =~= s.take(i) + s.skip(i));
    lemma_escaped_append(s.take(i), s.skip(i), special);
    assert(s.skip(i)[0] == s[i]);
    assert(escaped_chars(s.skip(i), special) == seq!['\\', s[i]] + escaped_chars(
        s.skip(i).drop_first(),
        special,
    ));
}

/// Escaping a second time changes nothing when the escaped text is itself
/// free of special characters. (In general escaping is not idempotent:
/// an escaped backslash is escaped again.)
pub proof fn lemma_escape_idempotent_when_clean(s: Seq<char>, special: Set<char>)
    requires
        forall|i: int|
            0 <= i < escaped_chars(s, special).len() ==> !special.contains(
                #[trigger] escaped_chars(s, special)[i],
            ),
    ensures
        escaped_chars(escaped_chars(s, special), special) == escaped_chars(s, special),
{
    lemma_escape_identity(escaped_chars(s, special), special);
}

/// A text tag value that holds none of the reserved characters is passed
/// through unchanged by escaping.
pub proof fn lemma_clean_tag_value_unchanged(s: String)
    requires
        forall|i: int|
            0 <= i < s@.len() ==> !char_class_set(CharClass::TagValueSpecials).contains(
                #[trigger] s@[i],
            ),
    ensures
        tag_value_text(Type::Text(s)) == s@,
{
    lemma_escape_identity(s@, char_class_set(CharClass::TagValueSpecials));
}

/// Escapes `s` for the given character class.
pub fn escape_str(s: &str, cs: CharClass) -> (r: String)
    ensures
        r@ == escaped_chars(s@, char_class_set(cs)),
{
    let n = s.unicode_len();
    let mut out = String::new();
    let mut i: usize = 0;
    while i < n
        invariant
            n == s@.len(),
            i <= n,
            out@ == escaped_chars(s@.take(i as int), char_class_set(cs)),
        decreases n - i,
    {
        let c = s.get_char(i);
        proof {
            lemma_escaped_snoc(s@.take(i as int), c, char_class_set(cs));
            assert(s@.take(i + 1) =~= s@.take(i as int).push(c));
        }
        if in_class(c, cs) {
            push_char(&mut out, '\\');
            push_char(&mut out, c);
            proof {
                assert(out@ =~= escaped_chars(s@.take(i + 1), char_class_set(cs)));
            }
        } else {
            push_char(&mut out, c);
            proof {
                assert(out@ =~= escaped_chars(s@.take(i + 1), char_class_set(cs)));
            }
        }
        i = i + 1;
    }
    proof {
        assert(s@.take(n as int) =~= s@);
    }
    out
}

/// The line-protocol text of `v` in field-value position: booleans as
/// words, integers with a type suffix, floats bare, text quoted.
pub open spec fn field_value_text(v: Type, use_v2: bool) -> Seq<char> {
    match v {
        Type::Boolean(b) => if b {
            "true"@
        } else {
            "false"@
        },
        Type::Float(f) => f@,
        Type::SignedInteger(i) => dec_rep_signed(i as int).push('i'),
        Type::UnsignedInteger(u) => dec_rep(u as nat).push(
            if use_v2 {
                'u'
            } else {
                'i'
            },
        ),
        Type::Text(t) => seq!['"'] + escaped_chars(t@, char_class_set(CharClass::QuoteSlash))
            + seq!['"'],
    }
}

/// The line-protocol text of `v` in tag-value position: always bare text,
/// numbers without any type suffix.
pub open spec fn tag_value_text(v: Type) -> Seq<char> {
    match v {
        Type::Boolean(b) => if b {
            "true"@
        } else {
            "false"@
        },
        Type::Float(f) => f@,
        Type::SignedInteger(i) => dec_rep_signed(i as int),
        Type::UnsignedInteger(u) => dec_rep(u as nat),
        Type::Text(t) => escaped_chars(t@, char_class_set(CharClass::TagValueSpecials)),
    }
}

fn bool_text(b: bool) -> (r: String)
    ensures
        r@ == if b {
            "true"@
        } else {
            "false"@
        },
{
    if b {
        String::from_str("true")
    } else {
        String::from_str("false")
    }
}

/// Renders `v` as a field value, exactly as [`field_value_text`] states.
pub fn field_value_string(v: &Type, use_v2: bool) -> (r: String)
    ensures
        r@ == field_value_text(*v, use_v2),
{
    match v {
        Type::Boolean(b) => bool_text(*b),
        Type::Float(f) => f.clone(),
        Type::SignedInteger(i) => {
            let mut s = format_i64(*i);
            push_char(&mut s, 'i');
            s
        },
        Type::UnsignedInteger(u) => {
            let mut s = format_u64(*u);
            push_char(
                &mut s,
                if use_v2 {
                    'u'
                } else {
                    'i'
                },
            );
            s
        },
        Type::Text(t) => {
            let mut s = String::new();
            push_char(&mut s, '"');
            let escaped = escape_str(t.as_str(), CharClass::QuoteSlash);
            s.append(escaped.as_str());
            push_char(&mut s, '"');
            proof {
                assert(s@ =~= field_value_text(*v, use_v2));
            }
            s
        },
    }
}

/// Renders `v` as a tag value, exactly as [`tag_value_text`] states.
pub fn tag_value_string(v: &Type) -> (r: String)
    ensures
        r@ == tag_value_text(*v),
{
    match v {
        Type::Boolean(b) => bool_text(*b),
        Type::Float(f) => f.clone(),
        Type::SignedInteger(i) => format_i64(*i),
        Type::UnsignedInteger(u) => format_u64(*u),
        Type::Text(t) => escape_str(t.as_str(), CharClass::TagValueSpecials),
    }
}

/// A string or value together with the lexical role it plays in a line.
#[derive(Clone, Copy)]
pub enum LineProtoTerm<'a> {
    /// The measurement name: escapes commas and spaces.
    Measurement(&'a str),
    /// A tag key: escapes commas, spaces and equals signs.
    TagKey(&'a str),
    /// A tag value: rendered as bare escaped text, whatever its type.
    TagValue(&'a Type),
    /// A field key: escapes commas, spaces and equals signs.
    FieldKey(&'a str),
    /// A field value: type-suffixed numbers, quoted text.
    FieldValue(&'a Type),
}

impl LineProtoTerm<'_> {
    /// The exact wire text of this term.
    pub open spec fn escaped_text(self, use_v2: bool) -> Seq<char> {
        match self {
            LineProtoTerm::Measurement(x) => escaped_chars(
                x@,
                char_class_set(CharClass::CommaSpace),
            ),
            LineProtoTerm::TagKey(x) => escaped_chars(x@, char_class_set(CharClass::CommaSpaceEq)),
            LineProtoTerm::FieldKey(x) => escaped_chars(
                x@,
                char_class_set(CharClass::CommaSpaceEq),
            ),
            LineProtoTerm::TagValue(x) => tag_value_text(*x),
            LineProtoTerm::FieldValue(x) => field_value_text(*x, use_v2),
        }
    }

    /// Renders this term for databases without unsigned field values:
    /// unsigned integers fall back to the signed `i` suffix.
    pub fn escape(self) -> (r: String)
        ensures
            r@ == self.escaped_text(false),
    {
        self.escape_opts(false)
    }

    /// Renders this term with unsigned field values kept unsigned (`u`).
    pub fn escape_v2(self) -> (r: String)
        ensures
            r@ == self.escaped_text(true),
    {
        self.escape_opts(true)
    }

    fn escape_opts(self, use_v2: bool) -> (r: String)
        ensures
            r@ == self.escaped_text(use_v2),
    {
        match self {
            LineProtoTerm::Measurement(x) => escape_str(x, CharClass::CommaSpace),
            LineProtoTerm::TagKey(x) => escape_str(x, CharClass::CommaSpaceEq),
            LineProtoTerm::FieldKey(x) => escape_str(x, CharClass::CommaSpaceEq),
            LineProtoTerm::TagValue(x) => tag_value_string(x),
            LineProtoTerm::FieldValue(x) => field_value_string(x, use_v2),
        }
    }
}

} // verus!
