//! Cursors: bookmarks of a position in an ordered result set.
use vstd::prelude::*;

use base64::Engine;

use crate::json::{lemma_unescape_escape, push_quoted, quoted, read_quoted, unescape};
use crate::number::{
    is_fraction_literal, is_int_literal, int_literal_value, lemma_int_text,
    lemma_number_token, number_char, number_len, read_int, scan_range,
};
use crate::params::SortDirection;
use crate::text::{int_text, push_i64, text_is};
use vstd::utf8::{decode_utf8, encode_utf8, valid_utf8};

verus! {

/// Whether rows after or before the bookmarked value are wanted.
#[derive(Clone, Copy, Debug, PartialEq, Eq, Structural)]
pub enum CursorDirection {
    After,
    Before,
}

/// The bookmarked value of the ordering field.
///
/// `Float` holds the decimal text of a floating-point number (`"2.5"`).
#[derive(Clone, Debug, PartialEq)]
pub enum CursorValue {
    String(String),
    Int(i64),
    Float(String),
}

/// A field, a value of it and a direction.
#[derive(Clone, Debug, PartialEq)]
pub struct Cursor {
    pub field: String,
    pub value: CursorValue,
    pub direction: CursorDirection,
}

/// Comparison that selects the rows on the wanted side of a cursor.
#[derive(Clone, Copy, Debug, PartialEq, Eq, Structural)]
pub enum CursorComparison {
    /// `field > value`
    Greater,
    /// `field < value`
    Less,
}

/// Rows after the cursor in ascending order, or before it in descending
/// order, lie above the cursor value; a missing sort direction counts as
/// ascending.
pub open spec fn selects_greater(direction: CursorDirection, sort: Option<SortDirection>) -> bool {
    let descending = sort == Some(SortDirection::Desc);
    match direction {
        CursorDirection::After => !descending,
        CursorDirection::Before => descending,
    }
}

/// The six cases: after in ascending order, or with no order, selects
/// `field > value`; after in descending order `field < value`; before in
/// ascending order, or with no order, `field < value`; before in descending
/// order `field > value`.
pub proof fn lemma_cursor_operator_table()
    ensures
        selects_greater(CursorDirection::After, Some(SortDirection::Asc)),
        selects_greater(CursorDirection::After, None),
        !selects_greater(CursorDirection::After, Some(SortDirection::Desc)),
        !selects_greater(CursorDirection::Before, Some(SortDirection::Asc)),
        !selects_greater(CursorDirection::Before, None),
        selects_greater(CursorDirection::Before, Some(SortDirection::Desc)),
{
}

impl CursorComparison {
    /// The SQL operator: `">"` or `"<"`.
    pub fn symbol(&self) -> (r: String)
        ensures
            r@ == (if *self == CursorComparison::Greater {
                seq!['>']
            } else {
                seq!['<']
            }),
    {
        let mut r = String::new();
        match self {
            CursorComparison::Greater => r.push('>'),
            CursorComparison::Less => r.push('<'),
        }
        assert(r@ =~= (if *self == CursorComparison::Greater {
            seq!['>']
        } else {
            seq!['<']
        }));
        r
    }
}

impl CursorDirection {
    /// The comparison against the cursor value for this direction under the
    /// given sort direction (none counts as ascending).
    pub fn comparison(&self, sort: Option<SortDirection>) -> (r: CursorComparison)
        ensures
            (r == CursorComparison::Greater) == selects_greater(*self, sort),
    {
        let descending = match sort {
            Some(SortDirection::Desc) => true,
            _ => false,
        };
        match self {
            CursorDirection::After => if descending {
                CursorComparison::Less
            } else {
                CursorComparison::Greater
            },
            CursorDirection::Before => if descending {
                CursorComparison::Greater
            } else {
                CursorComparison::Less
            },
        }
    }
}

/// What a cursor value holds.
pub enum ValueView {
    Str(Seq<char>),
    Int(i64),
    Float(Seq<char>),
}

/// What a cursor holds.
pub struct CursorView {
    pub field: Seq<char>,
    pub value: ValueView,
    pub direction: CursorDirection,
}

impl View for CursorValue {
    type V = ValueView;

    open spec fn view(&self) -> ValueView {
        match self {
            CursorValue::String(s) => ValueView::Str(s@),
            CursorValue::Int(i) => ValueView::Int(*i),
            CursorValue::Float(t) => ValueView::Float(t@),
        }
    }
}

impl View for Cursor {
    type V = CursorView;

    open spec fn view(&self) -> CursorView {
        CursorView { field: self.field@, value: self.value@, direction: self.direction }
    }
}

/// An integer literal whose value an `i64` cannot hold.
pub open spec fn is_wide_int(t: Seq<char>) -> bool {
    is_int_literal(t) && !(i64::MIN <= int_literal_value(t) <= i64::MAX)
}

/// A cursor can be written as a token when a floating-point value is a JSON
/// number with a fraction or an exponent (`"2.5"`, `"1e21"`), or an integer
/// too wide for `i64`.
pub open spec fn valid_cursor(m: CursorView) -> bool {
    m.value matches ValueView::Float(t) ==> (is_fraction_literal(t) || is_wide_int(t))
}

/// The JSON text of a value: a string literal, or the number as written.
pub open spec fn value_json(v: ValueView) -> Seq<char> {
    match v {
        ValueView::Str(s) => quoted(s),
        ValueView::Int(i) => int_text(i as int),
        ValueView::Float(t) => t,
    }
}

/// The tag of a direction.
pub open spec fn direction_name(d: CursorDirection) -> Seq<char> {
    match d {
        CursorDirection::After => "after"@,
        CursorDirection::Before => "before"@,
    }
}

/// One member of a JSON object: the quoted key, a colon, the value.
pub open spec fn member_text(key: Seq<char>, v: Seq<char>) -> Seq<char> {
    quoted(key) + seq![':'] + v
}

/// The JSON object of a cursor, members in the order field, value, direction,
/// without whitespace.
pub open spec fn cursor_json(m: CursorView) -> Seq<char> {
    seq!['{'] + member_text("field"@, quoted(m.field)) + seq![','] + member_text(
        "value"@,
        value_json(m.value),
    ) + seq![','] + member_text("direction"@, quoted(direction_name(m.direction))) + seq!['}']
}

/// A character of the standard base64 alphabet, or the padding `=`.
pub open spec fn is_base64_char(c: char) -> bool {
    ('A' <= c && c <= 'Z') || ('a' <= c && c <= 'z') || ('0' <= c && c <= '9') || c == '+' || c
        == '/' || c == '='
}

/// Standard base64, with padding, of some bytes.
pub uninterp spec fn base64_text(b: Seq<u8>) -> Seq<char>;

/// `s` reads as `m`: it is the base64 text of valid UTF-8 bytes whose text
/// is a JSON object of `m` (see `parse_cursor_json`).
pub open spec fn token_holds(s: Seq<char>, m: CursorView) -> bool {
    exists|b: Seq<u8>|
        #[trigger] base64_text(b) == s && valid_utf8(b) && parse_cursor_json(decode_utf8(b))
            == Some(m)
}

/// `s` reads as some cursor.
pub open spec fn token_readable(s: Seq<char>) -> bool {
    exists|b: Seq<u8>|
        #[trigger] base64_text(b) == s && valid_utf8(b) && parse_cursor_json(decode_utf8(b)) is Some
}

/// The token of a cursor: the base64 text of the UTF-8 bytes of its JSON object.
pub open spec fn cursor_token(m: CursorView) -> Seq<char> {
    base64_text(encode_utf8(cursor_json(m)))
}

/// Reads a value at the start of `t`: a string literal or a number; with
/// the number of characters read.
pub open spec fn parse_value(t: Seq<char>) -> Option<(ValueView, nat)> {
    if t.len() > 0 && t[0] == '"' {
        match unescape(t.skip(1)) {
            Some((s, n)) => Some((ValueView::Str(s), n + 1)),
            None => None,
        }
    } else {
        let k = number_len(t);
        let tok = t.take(k as int);
        if is_int_literal(tok) {
            let v = int_literal_value(tok);
            if i64::MIN <= v <= i64::MAX {
                Some((ValueView::Int(v as i64), k))
            } else {
                Some((ValueView::Float(tok), k))
            }
        } else if is_fraction_literal(tok) {
            Some((ValueView::Float(tok), k))
        } else {
            None
        }
    }
}

/// JSON whitespace.
pub open spec fn is_json_ws(c: char) -> bool {
    c == ' ' || c == '\t' || c == '\n' || c == '\r'
}

/// The first position at or after `i` that is not whitespace.
pub open spec fn skip_ws(t: Seq<char>, i: int) -> int
    decreases t.len() - i,
{
    if 0 <= i < t.len() && is_json_ws(t[i]) {
        skip_ws(t, i + 1)
    } else {
        i
    }
}

/// The string literal at `i`: what it holds and the position after it.
pub open spec fn string_at(t: Seq<char>, i: int) -> Option<(Seq<char>, int)> {
    if 0 <= i < t.len() && t[i] == '"' {
        match unescape(t.skip(i + 1)) {
            Some((s, n)) => Some((s, i + 1 + n)),
            None => None,
        }
    } else {
        None
    }
}

/// The direction a tag names.
pub open spec fn direction_named(s: Seq<char>) -> Option<CursorDirection> {
    if s == "after"@ {
        Some(CursorDirection::After)
    } else if s == "before"@ {
        Some(CursorDirection::Before)
    } else {
        None
    }
}

/// The end of the number at `j`: the run of number characters, when it is a
/// JSON number.
pub open spec fn number_end(t: Seq<char>, j: int) -> Option<int> {
    let k = number_len(t.skip(j)) as int;
    let tok = t.subrange(j, j + k);
    if k > 0 && (is_int_literal(tok) || is_fraction_literal(tok)) {
        Some(j + k)
    } else {
        None
    }
}

/// `w` occurs in `t` at `j`.
pub open spec fn word_at_pos(t: Seq<char>, j: int, w: Seq<char>) -> bool {
    0 <= j && j + w.len() <= t.len() && t.subrange(j, j + w.len()) == w
}

/// The end of the JSON value at `i` (whitespace first skipped): a string,
/// a number, `true`, `false`, `null`, an object or an array.
pub open spec fn value_end(t: Seq<char>, i: int) -> Option<int>
    decreases t.len() - i, 1int,
{
    let j = skip_ws(t, i);
    if !(0 <= i <= j < t.len()) {
        None
    } else if t[j] == '"' {
        match string_at(t, j) {
            Some((_s, e)) => Some(e),
            None => None,
        }
    } else if t[j] == '{' {
        elements_end(t, j + 1, '}', true)
    } else if t[j] == '[' {
        elements_end(t, j + 1, ']', false)
    } else if word_at_pos(t, j, seq!['t', 'r', 'u', 'e']) || word_at_pos(t, j, seq!['n', 'u', 'l', 'l']) {
        Some(j + 4)
    } else if word_at_pos(t, j, seq!['f', 'a', 'l', 's', 'e']) {
        Some(j + 5)
    } else {
        number_end(t, j)
    }
}

/// The end of a possibly empty list of items from `i` through `close`.
pub open spec fn elements_end(t: Seq<char>, i: int, close: char, keyed: bool) -> Option<int>
    decreases t.len() - i, 3int,
{
    let j = skip_ws(t, i);
    if !(0 <= i <= j < t.len()) {
        None
    } else if t[j] == close {
        Some(j + 1)
    } else {
        items_end(t, i, close, keyed)
    }
}

/// The end of a non-empty list of items from `i` through `close`: values,
/// or `key : value` members when keyed, separated by commas.
pub open spec fn items_end(t: Seq<char>, i: int, close: char, keyed: bool) -> Option<int>
    decreases t.len() - i, 2int,
{
    if !(0 <= i <= t.len()) {
        None
    } else {
        let start = if keyed {
            match string_at(t, skip_ws(t, i)) {
                Some((_k, e)) => {
                    let c = skip_ws(t, e);
                    if 0 <= c < t.len() && t[c] == ':' {
                        Some(c + 1)
                    } else {
                        None
                    }
                },
                None => None,
            }
        } else {
            Some(i)
        };
        match start {
            None => None,
            Some(vs) => if !(i <= vs <= t.len()) {
                None
            } else {
                match value_end(t, vs) {
                    None => None,
                    Some(e) => {
                        let c = skip_ws(t, e);
                        if !(i < c < t.len()) {
                            None
                        } else if t[c] == ',' {
                            items_end(t, c + 1, close, keyed)
                        } else if t[c] == close {
                            Some(c + 1)
                        } else {
                            None
                        }
                    },
                }
            },
        }
    }
}

/// A key that names no member of a cursor.
pub open spec fn other_key(key: Seq<char>) -> bool {
    key != "field"@ && key != "value"@ && key != "direction"@
}

/// The members of a cursor object read so far.
pub struct Fields {
    pub field: Option<Seq<char>>,
    pub value: Option<ValueView>,
    pub direction: Option<CursorDirection>,
}

/// Reads the value of member `key` at `i` into `acc`: the field a string,
/// the value a string or a number, the direction a string naming it; any
/// JSON value of another key is passed over; a key read before is refused.
pub open spec fn read_member(key: Seq<char>, t: Seq<char>, i: int, acc: Fields) -> Option<(Fields, int)> {
    if key == "field"@ && acc.field is None {
        match string_at(t, i) {
            Some((s, e)) => Some((Fields { field: Some(s), ..acc }, e)),
            None => None,
        }
    } else if key == "value"@ && acc.value is None && 0 <= i <= t.len() {
        match parse_value(t.skip(i)) {
            Some((v, k)) => Some((Fields { value: Some(v), ..acc }, i + k)),
            None => None,
        }
    } else if key == "direction"@ && acc.direction is None {
        match string_at(t, i) {
            Some((s, e)) => match direction_named(s) {
                Some(d) => Some((Fields { direction: Some(d), ..acc }, e)),
                None => None,
            },
            None => None,
        }
    } else if other_key(key) {
        match value_end(t, i) {
            Some(e) => Some((acc, e)),
            None => None,
        }
    } else {
        None
    }
}

/// Reads the members of an object from `i` (just past `{`) through the
/// closing `}`: each `key : value`, whitespace allowed around the tokens,
/// separated by commas.
pub open spec fn read_members(t: Seq<char>, i: int, acc: Fields) -> Option<(Fields, int)>
    decreases t.len() - i,
{
    if i < 0 || i > t.len() {
        None
    } else {
        match string_at(t, skip_ws(t, i)) {
            None => None,
            Some((key, i2)) => {
                let i3 = skip_ws(t, i2);
                if !(0 <= i3 < t.len() && t[i3] == ':') {
                    None
                } else {
                    match read_member(key, t, skip_ws(t, i3 + 1), acc) {
                        None => None,
                        Some((acc2, i5)) => {
                            let i6 = skip_ws(t, i5);
                            if !(i < i6 < t.len()) {
                                None
                            } else if t[i6] == ',' {
                                read_members(t, i6 + 1, acc2)
                            } else if t[i6] == '}' {
                                Some((acc2, i6 + 1))
                            } else {
                                None
                            }
                        },
                    }
                }
            },
        }
    }
}

/// Reads a cursor's JSON object: members `field`, `value` and `direction`,
/// each once, in any order, other members passed over, whitespace allowed
/// between tokens and around the object.
pub open spec fn parse_cursor_json(t: Seq<char>) -> Option<CursorView> {
    let i0 = skip_ws(t, 0);
    if !(0 <= i0 < t.len() && t[i0] == '{') {
        None
    } else {
        match read_members(t, i0 + 1, Fields { field: None, value: None, direction: None }) {
            Some((f, e)) => if skip_ws(t, e) == t.len() && f.field is Some && f.value is Some
                && f.direction is Some {
                Some(CursorView { field: f.field->0, value: f.value->0, direction: f.direction->0 })
            } else {
                None
            },
            None => None,
        }
    }
}

proof fn lemma_names()
    ensures
        "value"@ != "field"@,
        "direction"@ != "field"@,
        "direction"@ != "value"@,
        "before"@ != "after"@,
{
    reveal_strlit("value");
    reveal_strlit("field");
    reveal_strlit("direction");
    reveal_strlit("after");
    reveal_strlit("before");
    assert("value"@[0] != "field"@[0]);
    assert("direction"@[0] != "field"@[0]);
    assert("direction"@[0] != "value"@[0]);
    assert("before"@[0] != "after"@[0]);
}

proof fn lemma_string_at(pre: Seq<char>, s: Seq<char>, rest: Seq<char>)
    ensures
        string_at(pre + quoted(s) + rest, pre.len() as int) == Some(
            (s, (pre.len() + quoted(s).len()) as int),
        ),
{
    let t = pre + quoted(s) + rest;
    assert(t[pre.len() as int] == '"');
    assert(t.skip(pre.len() + 1int) =~= crate::json::escape(s) + seq!['"'] + rest);
    lemma_unescape_escape(s, rest);
}

proof fn lemma_parse_value(v: ValueView, tail: Seq<char>)
    requires
        v matches ValueView::Float(f) ==> (is_fraction_literal(f) || is_wide_int(f)),
        tail.len() > 0,
        tail[0] == ',',
    ensures
        parse_value(value_json(v) + tail) == Some((v, value_json(v).len())),
        value_json(v).len() > 0,
        !is_json_ws(value_json(v)[0]),
{
    let vj = value_json(v);
    let t = vj + tail;
    match v {
        ValueView::Str(s) => {
            assert(t =~= seq!['"'] + (crate::json::escape(s) + seq!['"'] + tail));
            assert(t.skip(1) =~= crate::json::escape(s) + seq!['"'] + tail);
            lemma_unescape_escape(s, tail);
        },
        ValueView::Int(i) => {
            lemma_int_text(i as int);
            lemma_number_token(vj, tail);
        },
        ValueView::Float(f) => {
            lemma_number_token(vj, tail);
            if is_fraction_literal(f) {
                crate::number::lemma_fraction_start(f);
            } else {
                crate::number::lemma_scan_chars(f);
                assert(f.len() > 0);
                assert(crate::number::is_number_char(f[0]));
            }
        },
    }
}

/// One member read at `pre.len()`, followed by `sep`.
proof fn lemma_member_step(
    pre: Seq<char>,
    key: Seq<char>,
    v: Seq<char>,
    sep: char,
    rest: Seq<char>,
    acc: Fields,
    acc2: Fields,
)
    requires
        v.len() > 0,
        !is_json_ws(v[0]),
        sep == ',' || sep == '}',
        read_member(
            key,
            pre + member_text(key, v) + seq![sep] + rest,
            (pre.len() + quoted(key).len() + 1) as int,
            acc,
        ) == Some((acc2, (pre.len() + member_text(key, v).len()) as int)),
    ensures
        read_members(pre + member_text(key, v) + seq![sep] + rest, pre.len() as int, acc) == if sep
            == ',' {
            read_members(
                pre + member_text(key, v) + seq![sep] + rest,
                (pre.len() + member_text(key, v).len() + 1) as int,
                acc2,
            )
        } else {
            Some((acc2, (pre.len() + member_text(key, v).len() + 1) as int))
        },
{
    let t = pre + member_text(key, v) + seq![sep] + rest;
    let i = pre.len() as int;
    let q = quoted(key).len() as int;
    assert(t =~= pre + quoted(key) + (seq![':'] + v + seq![sep] + rest));
    lemma_string_at(pre, key, seq![':'] + v + seq![sep] + rest);
    assert(t[i] == '"');
    assert(skip_ws(t, i) == i);
    assert(t[i + q] == ':');
    assert(skip_ws(t, i + q) == i + q);
    assert(t[i + q + 1] == v[0]);
    assert(skip_ws(t, i + q + 1) == i + q + 1);
    let e = i + member_text(key, v).len();
    assert(t[e] == sep);
    assert(skip_ws(t, e) == e);
}

/// The pieces of a cursor's JSON object: the text before each member and
/// each member.
pub open spec fn pieces(m: CursorView) -> (Seq<char>, Seq<char>, Seq<char>, Seq<char>, Seq<char>, Seq<char>) {
    let a = member_text("field"@, quoted(m.field));
    let b = member_text("value"@, value_json(m.value));
    let c = member_text("direction"@, quoted(direction_name(m.direction)));
    let pre1 = seq!['{'];
    let pre2 = pre1 + a + seq![','];
    let pre3 = pre2 + b + seq![','];
    (pre1, a, pre2, b, pre3, c)
}

pub open spec fn no_fields() -> Fields {
    Fields { field: None, value: None, direction: None }
}

proof fn lemma_field_member(m: CursorView)
    ensures
        ({
            let (pre1, a, pre2, b, pre3, c) = pieces(m);
            let t = cursor_json(m);
            read_members(t, 1, no_fields()) == read_members(
                t,
                pre2.len() as int,
                Fields { field: Some(m.field), ..no_fields() },
            )
        }),
{
    lemma_names();
    let (pre1, a, pre2, b, pre3, c) = pieces(m);
    let t = cursor_json(m);
    let v1 = quoted(m.field);
    let rest1 = b + seq![','] + c + seq!['}'];
    let f1 = Fields { field: Some(m.field), ..no_fields() };
    assert(t =~= pre1 + a + seq![','] + rest1);
    let j1 = (pre1.len() + quoted("field"@).len() + 1) as int;
    assert(t =~= (pre1 + quoted("field"@) + seq![':']) + v1 + (seq![','] + rest1));
    lemma_string_at(pre1 + quoted("field"@) + seq![':'], m.field, seq![','] + rest1);
    assert(read_member("field"@, t, j1, no_fields()) == Some((f1, (pre1.len() + a.len()) as int)));
    lemma_member_step(pre1, "field"@, v1, ',', rest1, no_fields(), f1);
}

proof fn lemma_value_member(m: CursorView)
    requires
        valid_cursor(m),
    ensures
        ({
            let (pre1, a, pre2, b, pre3, c) = pieces(m);
            let t = cursor_json(m);
            let f1 = Fields { field: Some(m.field), ..no_fields() };
            read_members(t, pre2.len() as int, f1) == read_members(
                t,
                pre3.len() as int,
                Fields { value: Some(m.value), ..f1 },
            )
        }),
{
    lemma_names();
    let (pre1, a, pre2, b, pre3, c) = pieces(m);
    let t = cursor_json(m);
    let v2 = value_json(m.value);
    let rest2 = c + seq!['}'];
    let f1 = Fields { field: Some(m.field), ..no_fields() };
    let f2 = Fields { value: Some(m.value), ..f1 };
    assert(t =~= pre2 + b + seq![','] + rest2);
    let j2 = (pre2.len() + quoted("value"@).len() + 1) as int;
    assert(t.skip(j2) =~= v2 + (seq![','] + rest2));
    lemma_parse_value(m.value, seq![','] + rest2);
    assert(read_member("value"@, t, j2, f1) == Some((f2, (pre2.len() + b.len()) as int)));
    lemma_member_step(pre2, "value"@, v2, ',', rest2, f1, f2);
}

proof fn lemma_direction_member(m: CursorView)
    ensures
        ({
            let (pre1, a, pre2, b, pre3, c) = pieces(m);
            let t = cursor_json(m);
            let f2 = Fields { field: Some(m.field), value: Some(m.value), direction: None };
            read_members(t, pre3.len() as int, f2) == Some(
                (Fields { direction: Some(m.direction), ..f2 }, t.len() as int),
            )
        }),
{
    lemma_names();
    let (pre1, a, pre2, b, pre3, c) = pieces(m);
    let t = cursor_json(m);
    let v3 = quoted(direction_name(m.direction));
    let rest3 = Seq::<char>::empty();
    let f2 = Fields { field: Some(m.field), value: Some(m.value), direction: None };
    let f3 = Fields { direction: Some(m.direction), ..f2 };
    assert(t =~= pre3 + c + seq!['}'] + rest3);
    let j3 = (pre3.len() + quoted("direction"@).len() + 1) as int;
    assert(t =~= (pre3 + quoted("direction"@) + seq![':']) + v3 + (seq!['}'] + rest3));
    lemma_string_at(
        pre3 + quoted("direction"@) + seq![':'],
        direction_name(m.direction),
        seq!['}'] + rest3,
    );
    assert(direction_named(direction_name(m.direction)) == Some(m.direction));
    assert(read_member("direction"@, t, j3, f2) == Some((f3, (pre3.len() + c.len()) as int)));
    lemma_member_step(pre3, "direction"@, v3, '}', rest3, f2, f3);
    assert(pre3.len() + c.len() + 1 == t.len());
}

/// Reading the JSON object of a valid cursor gives the cursor back.
pub proof fn lemma_cursor_json_round_trip(m: CursorView)
    requires
        valid_cursor(m),
    ensures
        parse_cursor_json(cursor_json(m)) == Some(m),
{
    let t = cursor_json(m);
    assert(t[0] == '{');
    assert(skip_ws(t, 0) == 0);
    lemma_field_member(m);
    lemma_value_member(m);
    lemma_direction_member(m);
    let f1 = Fields { field: Some(m.field), ..no_fields() };
    assert(Fields { value: Some(m.value), ..f1 } == Fields {
        field: Some(m.field),
        value: Some(m.value),
        direction: None,
    });
}

/// Relies on base64's `STANDARD` engine `encode`: the padded
/// standard-alphabet text of the bytes.
#[verifier::external_body]
fn base64_encode(b: &[u8]) -> (r: String)
    ensures
        r@ == base64_text(b@),
{
    base64::engine::general_purpose::STANDARD.encode(b)
}

/// Relies on base64's `STANDARD` engine `decode`, which demands canonical
/// padding and zero trailing bits: it succeeds exactly on the encodings of
/// byte strings, which hold only characters of the standard alphabet and
/// `=`, and returns the bytes encoded; the error becomes its message.
#[verifier::external_body]
fn base64_decode(s: &str) -> (r: Result<Vec<u8>, String>)
    ensures
        r matches Ok(v) ==> base64_text(v@) == s@ && forall|b: Seq<u8>|
            #[trigger] base64_text(b) == s@ ==> b == v@,
        r is Err ==> forall|b: Seq<u8>| #[trigger] base64_text(b) != s@,
        r is Ok ==> forall|i: int| 0 <= i < s@.len() ==> is_base64_char(#[trigger] s@[i]),
{
    base64::engine::general_purpose::STANDARD.decode(s).map_err(|e| e.to_string())
}

/// Relies on `String::from_utf8`: it succeeds exactly on valid UTF-8 and then
/// holds the characters encoded; the error becomes its message.
#[verifier::external_body]
fn utf8_string(b: Vec<u8>) -> (r: Result<String, String>)
    ensures
        r is Ok <==> valid_utf8(b@),
        r matches Ok(s) ==> s@ == decode_utf8(b@),
{
    String::from_utf8(b).map_err(|e| e.to_string())
}

/// `true` when `lit` occurs in `t` at `from`.
fn has_at(t: &str, from: usize, lit: &str) -> (r: bool)
    requires
        from <= t@.len(),
    ensures
        r == (t@.len() >= from + lit@.len() && t@.skip(from as int).take(lit@.len() as int)
            == lit@),
{
    let n = t.unicode_len();
    let m = lit.unicode_len();
    if n - from < m {
        return false;
    }
    let mut i: usize = 0;
    while i < m
        invariant
            n == t@.len(),
            m == lit@.len(),
            n - from >= m,
            i <= m,
            forall|j: int| 0 <= j < i ==> t@[from + j] == lit@[j],
        decreases m - i,
    {
        if t.get_char(from + i) != lit.get_char(i) {
            assert(t@.skip(from as int).take(m as int)[i as int] != lit@[i as int]);
            return false;
        }
        i = i + 1;
    }
    assert(t@.skip(from as int).take(m as int) =~= lit@);
    true
}

/// Reads a value at `j`: a string literal or a number; with the position
/// after it.
fn read_value(t: &str, j: usize) -> (r: Option<(CursorValue, usize)>)
    requires
        j <= t@.len(),
    ensures
        match parse_value(t@.skip(j as int)) {
            Some((v, m)) => r matches Some((c, e)) && c@ == v && e == j + m,
            None => r is None,
        },
        r matches Some((c, e)) ==> e <= t@.len(),
{
    let n = t.unicode_len();
    let ghost t3 = t@.skip(j as int);
    if j < n && t.get_char(j) == '"' {
        assert(t3[0] == '"');
        assert(t3.skip(1) =~= t@.skip(j + 1));
        match read_quoted(t, j + 1) {
            Some((s, e)) => Some((CursorValue::String(s), e)),
            None => None,
        }
    } else {
        assert(!(t3.len() > 0 && t3[0] == '"'));
        let mut e: usize = j;
        while e < n && number_char(t.get_char(e))
            invariant
                j <= e <= n,
                n == t@.len(),
                number_len(t@.skip(j as int)) == (e - j) + number_len(t@.skip(e as int)),
            decreases n - e,
        {
            assert(t@.skip(e + 1) =~= t@.skip(e as int).drop_first());
            e = e + 1;
        }
        assert(number_len(t@.skip(e as int)) == 0);
        assert(t3.take((e - j) as int) =~= t@.subrange(j as int, e as int));
        let st = scan_range(t, j, e);
        if st == crate::number::NumberState::Zero || st == crate::number::NumberState::IntDigits {
            match read_int(t, j, e) {
                Some(v) => Some((CursorValue::Int(v), e)),
                None => {
                    let tok = t.substring_char(j, e);
                    Some((CursorValue::Float(tok.to_owned()), e))
                },
            }
        } else if st == crate::number::NumberState::FracDigits || st
            == crate::number::NumberState::ExpDigits {
            let tok = t.substring_char(j, e);
            Some((CursorValue::Float(tok.to_owned()), e))
        } else {
            None
        }
    }
}

fn json_ws(c: char) -> (r: bool)
    ensures
        r == is_json_ws(c),
{
    c == ' ' || c == '\t' || c == '\n' || c == '\r'
}

fn skip_ws_at(t: &str, n: usize, i: usize) -> (r: usize)
    requires
        n == t@.len(),
        i <= n,
    ensures
        r == skip_ws(t@, i as int),
        i <= r <= n,
{
    let mut j = i;
    while j < n && json_ws(t.get_char(j))
        invariant
            n == t@.len(),
            i <= j <= n,
            skip_ws(t@, i as int) == skip_ws(t@, j as int),
        decreases n - j,
    {
        j = j + 1;
    }
    j
}

fn string_at_exec(t: &str, n: usize, i: usize) -> (r: Option<(String, usize)>)
    requires
        n == t@.len(),
        i <= n,
    ensures
        match string_at(t@, i as int) {
            Some((s, e)) => r matches Some((x, e2)) && x@ == s && e2 == e,
            None => r is None,
        },
        r matches Some((x, e)) ==> i < e <= n,
{
    if i < n && t.get_char(i) == '"' {
        read_quoted(t, i + 1)
    } else {
        None
    }
}

fn number_end_exec(t: &str, n: usize, j: usize) -> (r: Option<usize>)
    requires
        n == t@.len(),
        j <= n,
    ensures
        match number_end(t@, j as int) {
            Some(e) => r matches Some(e2) && e2 == e,
            None => r is None,
        },
        r matches Some(e) ==> e <= n,
{
    let mut e: usize = j;
    while e < n && number_char(t.get_char(e))
        invariant
            j <= e <= n,
            n == t@.len(),
            number_len(t@.skip(j as int)) == (e - j) + number_len(t@.skip(e as int)),
        decreases n - e,
    {
        assert(t@.skip(e + 1) =~= t@.skip(e as int).drop_first());
        e = e + 1;
    }
    assert(number_len(t@.skip(e as int)) == 0);
    if e == j {
        return None;
    }
    let st = scan_range(t, j, e);
    if st == crate::number::NumberState::Zero || st == crate::number::NumberState::IntDigits || st
        == crate::number::NumberState::FracDigits || st == crate::number::NumberState::ExpDigits {
        Some(e)
    } else {
        None
    }
}

fn word_at_exec(t: &str, n: usize, j: usize, w: &str) -> (r: bool)
    requires
        n == t@.len(),
        j <= n,
    ensures
        r == word_at_pos(t@, j as int, w@),
{
    let r = has_at(t, j, w);
    assert(r ==> t@.subrange(j as int, j + w@.len()) =~= t@.skip(j as int).take(w@.len() as int));
    assert(word_at_pos(t@, j as int, w@) ==> t@.subrange(j as int, j + w@.len())
        =~= t@.skip(j as int).take(w@.len() as int));
    r
}

fn value_end_exec(t: &str, n: usize, i: usize) -> (r: Option<usize>)
    requires
        n == t@.len(),
        i <= n,
    ensures
        match value_end(t@, i as int) {
            Some(e) => r matches Some(e2) && e2 == e,
            None => r is None,
        },
        r matches Some(e) ==> e <= n,
    decreases n - i, 1int,
{
    let j = skip_ws_at(t, n, i);
    if j >= n {
        return None;
    }
    let c = t.get_char(j);
    if c == '"' {
        match string_at_exec(t, n, j) {
            Some((_s, e)) => Some(e),
            None => None,
        }
    } else if c == '{' {
        elements_end_exec(t, n, j + 1, '}', true)
    } else if c == '[' {
        elements_end_exec(t, n, j + 1, ']', false)
    } else {
        proof {
            reveal_strlit("true");
            reveal_strlit("null");
            reveal_strlit("false");
            assert("true"@ =~= seq!['t', 'r', 'u', 'e']);
            assert("null"@ =~= seq!['n', 'u', 'l', 'l']);
            assert("false"@ =~= seq!['f', 'a', 'l', 's', 'e']);
        }
        if word_at_exec(t, n, j, "true") || word_at_exec(t, n, j, "null") {
            Some(j + 4)
        } else if word_at_exec(t, n, j, "false") {
            Some(j + 5)
        } else {
            number_end_exec(t, n, j)
        }
    }
}

fn elements_end_exec(t: &str, n: usize, i: usize, close: char, keyed: bool) -> (r: Option<usize>)
    requires
        n == t@.len(),
        i <= n,
    ensures
        match elements_end(t@, i as int, close, keyed) {
            Some(e) => r matches Some(e2) && e2 == e,
            None => r is None,
        },
        r matches Some(e) ==> e <= n,
    decreases n - i, 3int,
{
    let j = skip_ws_at(t, n, i);
    if j >= n {
        return None;
    }
    if t.get_char(j) == close {
        Some(j + 1)
    } else {
        items_end_exec(t, n, i, close, keyed)
    }
}

fn items_end_exec(t: &str, n: usize, i: usize, close: char, keyed: bool) -> (r: Option<usize>)
    requires
        n == t@.len(),
        i <= n,
    ensures
        match items_end(t@, i as int, close, keyed) {
            Some(e) => r matches Some(e2) && e2 == e,
            None => r is None,
        },
        r matches Some(e) ==> e <= n,
    decreases n - i, 2int,
{
    let vs = if keyed {
        let k = skip_ws_at(t, n, i);
        match string_at_exec(t, n, k) {
            Some((_key, e)) => {
                let c = skip_ws_at(t, n, e);
                if c < n && t.get_char(c) == ':' {
                    c + 1
                } else {
                    return None;
                }
            },
            None => {
                return None;
            },
        }
    } else {
        i
    };
    let e = match value_end_exec(t, n, vs) {
        Some(e) => e,
        None => {
            return None;
        },
    };
    let c = skip_ws_at(t, n, e);
    if !(i < c && c < n) {
        return None;
    }
    let ch = t.get_char(c);
    if ch == ',' {
        items_end_exec(t, n, c + 1, close, keyed)
    } else if ch == close {
        Some(c + 1)
    } else {
        None
    }
}

/// The members read so far, as values.
pub struct FieldsRead {
    pub field: Option<String>,
    pub value: Option<CursorValue>,
    pub direction: Option<CursorDirection>,
}

impl View for FieldsRead {
    type V = Fields;

    open spec fn view(&self) -> Fields {
        Fields {
            field: match self.field {
                Some(s) => Some(s@),
                None => None,
            },
            value: match self.value {
                Some(v) => Some(v@),
                None => None,
            },
            direction: self.direction,
        }
    }
}

fn read_member_exec(key: &str, t: &str, n: usize, i: usize, acc: FieldsRead) -> (r: Option<
    (FieldsRead, usize),
>)
    requires
        n == t@.len(),
        i <= n,
    ensures
        match read_member(key@, t@, i as int, acc@) {
            Some((f, e)) => r matches Some((a2, e2)) && a2@ == f && e2 == e,
            None => r is None,
        },
        r matches Some((a2, e)) ==> e <= n,
{
    if text_is(key, "field") && acc.field.is_none() {
        match string_at_exec(t, n, i) {
            Some((s, e)) => Some((FieldsRead { field: Some(s), ..acc }, e)),
            None => None,
        }
    } else if text_is(key, "value") && acc.value.is_none() {
        match read_value(t, i) {
            Some((v, e)) => Some((FieldsRead { value: Some(v), ..acc }, e)),
            None => None,
        }
    } else if text_is(key, "direction") && acc.direction.is_none() {
        match string_at_exec(t, n, i) {
            Some((s, e)) => {
                if text_is(s.as_str(), "after") {
                    Some((FieldsRead { direction: Some(CursorDirection::After), ..acc }, e))
                } else if text_is(s.as_str(), "before") {
                    Some((FieldsRead { direction: Some(CursorDirection::Before), ..acc }, e))
                } else {
                    None
                }
            },
            None => None,
        }
    } else if !text_is(key, "field") && !text_is(key, "value") && !text_is(key, "direction") {
        match value_end_exec(t, n, i) {
            Some(e) => Some((acc, e)),
            None => None,
        }
    } else {
        None
    }
}

fn read_members_exec(t: &str, n: usize, i: usize, acc: FieldsRead) -> (r: Option<
    (FieldsRead, usize),
>)
    requires
        n == t@.len(),
        i <= n,
    ensures
        match read_members(t@, i as int, acc@) {
            Some((f, e)) => r matches Some((a2, e2)) && a2@ == f && e2 == e,
            None => r is None,
        },
        r matches Some((a2, e)) ==> e <= n,
    decreases n - i,
{
    let i1 = skip_ws_at(t, n, i);
    let (key, i2) = match string_at_exec(t, n, i1) {
        Some(x) => x,
        None => {
            return None;
        },
    };
    let i3 = skip_ws_at(t, n, i2);
    if !(i3 < n && t.get_char(i3) == ':') {
        return None;
    }
    let i4 = skip_ws_at(t, n, i3 + 1);
    let (acc2, i5) = match read_member_exec(key.as_str(), t, n, i4, acc) {
        Some(x) => x,
        None => {
            return None;
        },
    };
    let i6 = skip_ws_at(t, n, i5);
    if !(i < i6 && i6 < n) {
        return None;
    }
    let c = t.get_char(i6);
    if c == ',' {
        read_members_exec(t, n, i6 + 1, acc2)
    } else if c == '}' {
        Some((acc2, i6 + 1))
    } else {
        None
    }
}

/// `true` when `t` is a JSON number with a fraction or an exponent, or an
/// integer too wide for `i64`.
pub(crate) fn float_text_ok(t: &str) -> (r: bool)
    ensures
        r == (is_fraction_literal(t@) || is_wide_int(t@)),
{
    let n = t.unicode_len();
    let st = scan_range(t, 0, n);
    assert(t@.subrange(0, n as int) =~= t@);
    if st == crate::number::NumberState::FracDigits || st == crate::number::NumberState::ExpDigits {
        true
    } else if st == crate::number::NumberState::Zero || st == crate::number::NumberState::IntDigits {
        read_int(t, 0, n).is_none()
    } else {
        false
    }
}

impl Cursor {
    pub fn new(field: String, value: CursorValue, direction: CursorDirection) -> (r: Cursor)
        ensures
            r == (Cursor { field, value, direction }),
    {
        Cursor { field, value, direction }
    }

    /// The JSON object of this cursor; nothing when a floating-point value is
    /// not a JSON number with a fraction or an exponent, or an integer too
    /// wide for `i64`.
    pub fn to_json(&self) -> (r: Option<String>)
        ensures
            r is Some <==> valid_cursor(self@),
            r matches Some(t) ==> t@ == cursor_json(self@),
    {
        let mut out = String::new();
        out.push('{');
        push_quoted(&mut out, "field");
        out.push(':');
        push_quoted(&mut out, self.field.as_str());
        out.push(',');
        push_quoted(&mut out, "value");
        out.push(':');
        match &self.value {
            CursorValue::String(s) => push_quoted(&mut out, s.as_str()),
            CursorValue::Int(i) => push_i64(&mut out, *i),
            CursorValue::Float(t) => {
                if !float_text_ok(t.as_str()) {
                    return None;
                }
                out.push_str(t.as_str());
            },
        }
        out.push(',');
        push_quoted(&mut out, "direction");
        out.push(':');
        match self.direction {
            CursorDirection::After => push_quoted(&mut out, "after"),
            CursorDirection::Before => push_quoted(&mut out, "before"),
        }
        out.push('}');
        assert(out@ =~= cursor_json(self@));
        Some(out)
    }

    /// The opaque token of this cursor: base64 of the UTF-8 bytes of its JSON
    /// object. An error when a floating-point value is not a JSON number with
    /// a fraction or an exponent.
    pub fn encode(&self) -> (r: Result<String, String>)
        ensures
            r is Ok <==> valid_cursor(self@),
            r matches Ok(t) ==> t@ == cursor_token(self@),
    {
        match self.to_json() {
            Some(json) => Ok(base64_encode(json.as_str().as_bytes())),
            None => Err(String::from_str("cursor value is not a JSON number")),
        }
    }

    /// Reads a cursor's JSON object; see `parse_cursor_json`.
    pub fn from_json(t: &str) -> (r: Option<Cursor>)
        ensures
            match parse_cursor_json(t@) {
                Some(m) => r matches Some(c) && c@ == m,
                None => r is None,
            },
    {
        let n = t.unicode_len();
        let i0 = skip_ws_at(t, n, 0);
        if !(i0 < n && t.get_char(i0) == '{') {
            return None;
        }
        let empty = FieldsRead { field: None, value: None, direction: None };
        let (f, e) = match read_members_exec(t, n, i0 + 1, empty) {
            Some(x) => x,
            None => {
                return None;
            },
        };
        if skip_ws_at(t, n, e) != n {
            return None;
        }
        match (f.field, f.value, f.direction) {
            (Some(field), Some(value), Some(direction)) => Some(Cursor { field, value, direction }),
            _ => None,
        }
    }

    /// Reads a token: standard padded base64 of UTF-8 text holding a cursor's
    /// JSON object (see `parse_cursor_json`). Fails, with a message, on text
    /// that is not base64, bytes that are not UTF-8, and text that is not such
    /// an object.
    pub fn decode(encoded: &str) -> (r: Result<Cursor, String>)
        ensures
            r matches Ok(c) ==> token_holds(encoded@, c@),
            r is Ok ==> forall|i: int|
                0 <= i < encoded@.len() ==> is_base64_char(#[trigger] encoded@[i]),
            token_readable(encoded@) ==> r is Ok,
            forall|m: CursorView|
                valid_cursor(m) && #[trigger] cursor_token(m) == encoded@ ==> (r matches Ok(c)
                    && c@ == m),
    {
        let bytes = match base64_decode(encoded) {
            Ok(b) => b,
            Err(e) => {
                proof {
                    assert forall|m: CursorView|
                        valid_cursor(m) && #[trigger] cursor_token(m) == encoded@ implies false by {
                        assert(base64_text(encode_utf8(cursor_json(m))) == encoded@);
                    }
                }
                return Err(e);
            },
        };
        let ghost b = bytes@;
        proof {
            assert forall|m: CursorView|
                valid_cursor(m) && #[trigger] cursor_token(m) == encoded@ implies b == encode_utf8(
                cursor_json(m),
            ) && valid_utf8(b) && decode_utf8(b) == cursor_json(m) && parse_cursor_json(
                cursor_json(m),
            ) == Some(m) by {
                assert(base64_text(encode_utf8(cursor_json(m))) == encoded@);
                vstd::utf8::encode_utf8_valid_utf8(cursor_json(m));
                vstd::utf8::encode_utf8_decode_utf8(cursor_json(m));
                lemma_cursor_json_round_trip(m);
            }
        }
        let text = match utf8_string(bytes) {
            Ok(s) => s,
            Err(e) => {
                return Err(e);
            },
        };
        match Cursor::from_json(text.as_str()) {
            Some(c) => Ok(c),
            None => Err(String::from_str("token does not hold a cursor")),
        }
    }
}

} // verus!
