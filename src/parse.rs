//! Reading request parameters from query-string text: filters written as
//! `field:operator:value`, sort directions and comma-separated lists.
use vstd::prelude::*;

use crate::filter::{Filter, FilterOperator, FilterValue, FloatLiteral};
use crate::number::{digits_value, is_digit};
use crate::text::text_is;

verus! {

/// Whitespace as `char::is_whitespace` defines it (the Unicode `White_Space` property).
pub open spec fn is_ws(c: char) -> bool {
    c == ' ' || ('\t' <= c && c <= '\r') || c == '\u{85}' || c == '\u{a0}' || c == '\u{1680}' || (
    '\u{2000}' <= c && c <= '\u{200a}') || c == '\u{2028}' || c == '\u{2029}' || c == '\u{202f}'
        || c == '\u{205f}' || c == '\u{3000}'
}

fn ws(c: char) -> (r: bool)
    ensures
        r == is_ws(c),
{
    c == ' ' || ('\t' <= c && c <= '\r') || c == '\u{85}' || c == '\u{a0}' || c == '\u{1680}' || (
    '\u{2000}' <= c && c <= '\u{200a}') || c == '\u{2028}' || c == '\u{2029}' || c == '\u{202f}'
        || c == '\u{205f}' || c == '\u{3000}'
}

/// `s` without leading whitespace.
pub open spec fn trim_start(s: Seq<char>) -> Seq<char>
    decreases s.len(),
{
    if s.len() > 0 && is_ws(s[0]) {
        trim_start(s.drop_first())
    } else {
        s
    }
}

/// `s` without trailing whitespace.
pub open spec fn trim_end(s: Seq<char>) -> Seq<char>
    decreases s.len(),
{
    if s.len() > 0 && is_ws(s.last()) {
        trim_end(s.drop_last())
    } else {
        s
    }
}

/// `s` without leading or trailing whitespace, as `str::trim` returns it.
pub open spec fn trim(s: Seq<char>) -> Seq<char> {
    trim_end(trim_start(s))
}

/// `t` without leading or trailing whitespace.
pub fn trimmed(t: &str) -> (r: String)
    ensures
        r@ == trim(t@),
{
    let n = t.unicode_len();
    let mut a: usize = 0;
    assert(t@.skip(0) =~= t@);
    while a < n && ws(t.get_char(a))
        invariant
            n == t@.len(),
            a <= n,
            trim_start(t@) == trim_start(t@.skip(a as int)),
        decreases n - a,
    {
        assert(t@.skip(a + 1) =~= t@.skip(a as int).drop_first());
        a = a + 1;
    }
    assert(trim_start(t@) == t@.skip(a as int));
    let mut b: usize = n;
    assert(t@.skip(a as int) =~= t@.subrange(a as int, n as int));
    while b > a && ws(t.get_char(b - 1))
        invariant
            n == t@.len(),
            a <= b <= n,
            trim(t@) == trim_end(t@.subrange(a as int, b as int)),
        decreases b - a,
    {
        assert(t@.subrange(a as int, b - 1) =~= t@.subrange(a as int, b as int).drop_last());
        b = b - 1;
    }
    let s = t.substring_char(a, b);
    s.to_owned()
}

/// Position of the first `c` in `s` at or after `i`.
pub open spec fn find_from(s: Seq<char>, c: char, i: int) -> Option<int>
    decreases s.len() - i,
{
    if i < 0 || i >= s.len() {
        None
    } else if s[i] == c {
        Some(i)
    } else {
        find_from(s, c, i + 1)
    }
}

/// The pieces of `s` from `i` on between occurrences of `c`, as `str::split` gives them.
pub open spec fn split_from(s: Seq<char>, c: char, i: int) -> Seq<Seq<char>>
    decreases s.len() - i,
{
    if i < 0 || i > s.len() {
        Seq::empty()
    } else {
        match find_from(s, c, i) {
            Some(k) => if i <= k < s.len() {
                seq![s.subrange(i, k)] + split_from(s, c, k + 1)
            } else {
                Seq::empty()
            },
            None => seq![s.subrange(i, s.len() as int)],
        }
    }
}

/// The pieces of `s` between occurrences of `c`.
pub open spec fn split(s: Seq<char>, c: char) -> Seq<Seq<char>> {
    split_from(s, c, 0)
}

proof fn lemma_find_from(s: Seq<char>, c: char, i: int, j: int)
    requires
        0 <= i <= j <= s.len(),
        forall|k: int| i <= k < j ==> s[k] != c,
    ensures
        find_from(s, c, i) == find_from(s, c, j),
    decreases j - i,
{
    if i < j {
        lemma_find_from(s, c, i + 1, j);
    }
}

/// The pieces of `t` between occurrences of `c`.
pub fn split_on(t: &str, c: char) -> (r: Vec<String>)
    ensures
        crate::text::views(r@) == split(t@, c),
{
    let n = t.unicode_len();
    let mut out: Vec<String> = Vec::new();
    let mut st: usize = 0;
    let mut i: usize = 0;
    while i < n
        invariant
            n == t@.len(),
            st <= i <= n,
            split(t@, c) == crate::text::views(out@) + split_from(t@, c, st as int),
            forall|k: int| st <= k < i ==> t@[k] != c,
        decreases n - i,
    {
        if t.get_char(i) == c {
            proof {
                lemma_find_from(t@, c, st as int, i as int);
                assert(split_from(t@, c, st as int) == seq![t@.subrange(st as int, i as int)]
                    + split_from(t@, c, i + 1));
            }
            let piece = t.substring_char(st, i).to_owned();
            let ghost before = out@;
            out.push(piece);
            assert(crate::text::views(out@) =~= crate::text::views(before) + seq![
                t@.subrange(st as int, i as int),
            ]);
            assert(split(t@, c) =~= crate::text::views(out@) + split_from(t@, c, i + 1));
            st = i + 1;
        }
        i = i + 1;
    }
    proof {
        lemma_find_from(t@, c, st as int, n as int);
    }
    let piece = t.substring_char(st, n).to_owned();
    let ghost before = out@;
    out.push(piece);
    assert(crate::text::views(out@) =~= crate::text::views(before) + seq![
        t@.subrange(st as int, n as int),
    ]);
    assert(crate::text::views(out@) =~= split(t@, c));
    out
}

/// The digits of an integer written with an optional sign.
pub open spec fn unsigned_part(t: Seq<char>) -> Seq<char> {
    if t.len() > 0 && (t[0] == '+' || t[0] == '-') {
        t.drop_first()
    } else {
        t
    }
}

/// The value of an integer as `i64::from_str` reads it (an optional sign,
/// then at least one digit), before any range check.
pub open spec fn int_text_value(t: Seq<char>) -> Option<int> {
    let d = unsigned_part(t);
    if d.len() > 0 && forall|k: int| 0 <= k < d.len() ==> is_digit(#[trigger] d[k]) {
        Some(
            if t[0] == '-' {
                -digits_value(d)
            } else {
                digits_value(d)
            },
        )
    } else {
        None
    }
}

/// The `i64` that `t` is the text of, as `i64::from_str` reads it.
pub open spec fn i64_of(t: Seq<char>) -> Option<i64> {
    match int_text_value(t) {
        Some(v) => if i64::MIN <= v <= i64::MAX {
            Some(v as i64)
        } else {
            None
        },
        None => None,
    }
}

/// Reads `t` as `i64::from_str` does.
pub fn parse_i64(t: &str) -> (r: Option<i64>)
    ensures
        r == i64_of(t@),
{
    let n = t.unicode_len();
    if n == 0 {
        return None;
    }
    let first = t.get_char(0);
    let neg = first == '-';
    let start: usize = if first == '+' || first == '-' {
        1
    } else {
        0
    };
    let ghost d = unsigned_part(t@);
    assert(d =~= t@.subrange(start as int, n as int));
    if start == n {
        return None;
    }
    let limit: u64 = 9223372036854775808;
    let mut acc: u64 = 0;
    let mut i: usize = start;
    assert(d.take(0) =~= Seq::<char>::empty());
    while i < n
        invariant
            start <= i <= n,
            n == t@.len(),
            start < n,
            d == t@.subrange(start as int, n as int),
            d == unsigned_part(t@),
            neg == (t@[0] == '-'),
            forall|k: int| 0 <= k < i - start ==> is_digit(#[trigger] d[k]),
            acc == digits_value(d.take(i - start)),
            acc <= limit,
            limit == 9223372036854775808u64,
        decreases n - i,
    {
        let c = t.get_char(i);
        assert(c == d[i - start]);
        if !('0' <= c && c <= '9') {
            assert(!is_digit(d[i - start]));
            return None;
        }
        let dg: u64 = (c as u32 - 48) as u64;
        assert(d.take(i - start + 1).drop_last() =~= d.take(i - start));
        assert(d.take(i - start + 1).last() == c);
        assert(digits_value(d.take(i - start + 1)) == acc * 10 + dg);
        if acc > (limit - dg) / 10 {
            proof {
                assert(acc * 10 + dg > limit) by (nonlinear_arith)
                    requires
                        acc > (limit - dg) / 10,
                        dg <= 9,
                        limit == 9223372036854775808u64,
                ;
                if forall|k: int| 0 <= k < d.len() ==> is_digit(#[trigger] d[k]) {
                    crate::number::lemma_digits_prefix(d, i - start + 1);
                }
            }
            return None;
        }
        acc = acc * 10 + dg;
        i = i + 1;
    }
    assert(d.take(i - start) =~= d);
    assert(neg == (t@[0] == '-'));
    if neg {
        if acc == limit {
            Some(i64::MIN)
        } else {
            Some(-(acc as i64))
        }
    } else {
        if acc > 9223372036854775807 {
            None
        } else {
            Some(acc as i64)
        }
    }
}

/// Where a scan of a decimal floating-point number stands.
#[derive(Clone, Copy, Debug, PartialEq, Eq, Structural)]
pub enum FloatState {
    Start,
    Sign,
    Int,
    IntDot,
    LeadDot,
    Frac,
    Exp,
    ExpSign,
    ExpDigits,
    Fail,
}

/// One step of the scan:
/// `[+-]? (digits | digits '.' digits? | '.' digits) ([eE] [+-]? digits)?`.
pub open spec fn float_step(s: FloatState, c: char) -> FloatState {
    let d = is_digit(c);
    let e = c == 'e' || c == 'E';
    let sign = c == '+' || c == '-';
    match s {
        FloatState::Start => if sign {
            FloatState::Sign
        } else if d {
            FloatState::Int
        } else if c == '.' {
            FloatState::LeadDot
        } else {
            FloatState::Fail
        },
        FloatState::Sign => if d {
            FloatState::Int
        } else if c == '.' {
            FloatState::LeadDot
        } else {
            FloatState::Fail
        },
        FloatState::Int => if d {
            FloatState::Int
        } else if c == '.' {
            FloatState::IntDot
        } else if e {
            FloatState::Exp
        } else {
            FloatState::Fail
        },
        FloatState::IntDot => if d {
            FloatState::Frac
        } else if e {
            FloatState::Exp
        } else {
            FloatState::Fail
        },
        FloatState::LeadDot => if d {
            FloatState::Frac
        } else {
            FloatState::Fail
        },
        FloatState::Frac => if d {
            FloatState::Frac
        } else if e {
            FloatState::Exp
        } else {
            FloatState::Fail
        },
        FloatState::Exp => if sign {
            FloatState::ExpSign
        } else if d {
            FloatState::ExpDigits
        } else {
            FloatState::Fail
        },
        FloatState::ExpSign => if d {
            FloatState::ExpDigits
        } else {
            FloatState::Fail
        },
        FloatState::ExpDigits => if d {
            FloatState::ExpDigits
        } else {
            FloatState::Fail
        },
        FloatState::Fail => FloatState::Fail,
    }
}

pub open spec fn float_scan(t: Seq<char>) -> FloatState
    decreases t.len(),
{
    if t.len() == 0 {
        FloatState::Start
    } else {
        float_step(float_scan(t.drop_last()), t.last())
    }
}

/// ASCII letters in lower case, other characters unchanged.
pub open spec fn ascii_lower(c: char) -> char {
    if 'A' <= c && c <= 'Z' {
        ((c as u32) + 32) as char
    } else {
        c
    }
}

/// `t` equals the lower-case `lit` when ASCII case is ignored.
pub open spec fn same_ignoring_case(t: Seq<char>, lit: Seq<char>) -> bool {
    t.len() == lit.len() && forall|k: int| 0 <= k < t.len() ==> ascii_lower(#[trigger] t[k]) == lit[k]
}

/// `t` is text that `f64::from_str` accepts: a decimal number, or `inf`,
/// `infinity` or `nan` in any case, each with an optional sign.
pub open spec fn is_float_text(t: Seq<char>) -> bool {
    let s = float_scan(t);
    let u = unsigned_part(t);
    s == FloatState::Int || s == FloatState::IntDot || s == FloatState::Frac || s
        == FloatState::ExpDigits || same_ignoring_case(u, "inf"@) || same_ignoring_case(
        u,
        "infinity"@,
    ) || same_ignoring_case(u, "nan"@)
}

fn float_step_exec(s: FloatState, c: char) -> (r: FloatState)
    ensures
        r == float_step(s, c),
{
    let d = '0' <= c && c <= '9';
    let e = c == 'e' || c == 'E';
    let sign = c == '+' || c == '-';
    match s {
        FloatState::Start => if sign {
            FloatState::Sign
        } else if d {
            FloatState::Int
        } else if c == '.' {
            FloatState::LeadDot
        } else {
            FloatState::Fail
        },
        FloatState::Sign => if d {
            FloatState::Int
        } else if c == '.' {
            FloatState::LeadDot
        } else {
            FloatState::Fail
        },
        FloatState::Int => if d {
            FloatState::Int
        } else if c == '.' {
            FloatState::IntDot
        } else if e {
            FloatState::Exp
        } else {
            FloatState::Fail
        },
        FloatState::IntDot => if d {
            FloatState::Frac
        } else if e {
            FloatState::Exp
        } else {
            FloatState::Fail
        },
        FloatState::LeadDot => if d {
            FloatState::Frac
        } else {
            FloatState::Fail
        },
        FloatState::Frac => if d {
            FloatState::Frac
        } else if e {
            FloatState::Exp
        } else {
            FloatState::Fail
        },
        FloatState::Exp => if sign {
            FloatState::ExpSign
        } else if d {
            FloatState::ExpDigits
        } else {
            FloatState::Fail
        },
        FloatState::ExpSign => if d {
            FloatState::ExpDigits
        } else {
            FloatState::Fail
        },
        FloatState::ExpDigits => if d {
            FloatState::ExpDigits
        } else {
            FloatState::Fail
        },
        FloatState::Fail => FloatState::Fail,
    }
}

/// `true` when the text of `t` from `from` on equals `lit` (lower case),
/// ASCII case ignored.
fn rest_ignoring_case(t: &str, from: usize, lit: &str) -> (r: bool)
    requires
        from <= t@.len(),
    ensures
        r == same_ignoring_case(t@.skip(from as int), lit@),
{
    let n = t.unicode_len();
    let m = lit.unicode_len();
    if n - from != m {
        return false;
    }
    let mut i: usize = 0;
    while i < m
        invariant
            n == t@.len(),
            m == lit@.len(),
            n - from == m,
            i <= m,
            forall|k: int| 0 <= k < i ==> ascii_lower(#[trigger] t@.skip(from as int)[k]) == lit@[k],
        decreases m - i,
    {
        let c = t.get_char(from + i);
        assert(c == t@.skip(from as int)[i as int]);
        let l = if 'A' <= c && c <= 'Z' {
            ((c as u32) + 32) as u8 as char
        } else {
            c
        };
        assert(l == ascii_lower(c));
        if l != lit.get_char(i) {
            return false;
        }
        i = i + 1;
    }
    true
}

/// `true` when `f64::from_str` accepts `t`.
pub fn float_text(t: &str) -> (r: bool)
    ensures
        r == is_float_text(t@),
{
    let n = t.unicode_len();
    let mut s = FloatState::Start;
    let mut i: usize = 0;
    while i < n
        invariant
            n == t@.len(),
            i <= n,
            s == float_scan(t@.take(i as int)),
        decreases n - i,
    {
        let c = t.get_char(i);
        assert(t@.take(i + 1).drop_last() =~= t@.take(i as int));
        s = float_step_exec(s, c);
        i = i + 1;
    }
    assert(t@.take(n as int) =~= t@);
    if s == FloatState::Int || s == FloatState::IntDot || s == FloatState::Frac || s
        == FloatState::ExpDigits {
        return true;
    }
    let start: usize = if n > 0 && (t.get_char(0) == '+' || t.get_char(0) == '-') {
        1
    } else {
        0
    };
    assert(unsigned_part(t@) =~= t@.skip(start as int));
    rest_ignoring_case(t, start, "inf") || rest_ignoring_case(t, start, "infinity")
        || rest_ignoring_case(t, start, "nan")
}

/// The value a piece of query text stands for: an integer if `i64` reads
/// it, else a float if `f64` reads it, else (where `bools`) a boolean for
/// `true`/`false`, else the text itself.
pub open spec fn typed_value(v: FilterValue, t: Seq<char>, bools: bool) -> bool {
    match i64_of(t) {
        Some(n) => v == FilterValue::Int(n),
        None => if is_float_text(t) {
            v matches FilterValue::Float(f) && f@ == t
        } else if bools && (t == "true"@ || t == "false"@) {
            v == FilterValue::Bool(t == "true"@)
        } else {
            v matches FilterValue::String(x) && x@ == t
        },
    }
}

/// Reads a value by the rules of `typed_value`.
pub fn typed(t: String, bools: bool) -> (r: FilterValue)
    ensures
        typed_value(r, t@, bools),
{
    match parse_i64(t.as_str()) {
        Some(n) => FilterValue::Int(n),
        None => {
            if float_text(t.as_str()) {
                match FloatLiteral::new(t) {
                    Ok(f) => FilterValue::Float(f),
                    Err(t) => FilterValue::String(t),
                }
            } else if bools && text_is(t.as_str(), "true") {
                FilterValue::Bool(true)
            } else if bools && text_is(t.as_str(), "false") {
                proof {
                    reveal_strlit("true");
                    reveal_strlit("false");
                    assert(t@ != "true"@);
                }
                FilterValue::Bool(false)
            } else {
                FilterValue::String(t)
            }
        },
    }
}

/// An array of the pieces of `t` between commas, each trimmed and read by
/// the rules of `typed_value`.
pub open spec fn typed_list(v: FilterValue, t: Seq<char>, bools: bool) -> bool {
    let pieces = split(t, ',');
    v matches FilterValue::Array(items) && items@.len() == pieces.len() && forall|k: int|
        0 <= k < pieces.len() ==> typed_value(#[trigger] items@[k], trim(pieces[k]), bools)
}

fn typed_items(t: &str, bools: bool) -> (r: FilterValue)
    ensures
        typed_list(r, t@, bools),
{
    let pieces = split_on(t, ',');
    let mut items: Vec<FilterValue> = Vec::new();
    let mut i: usize = 0;
    while i < pieces.len()
        invariant
            i <= pieces@.len(),
            crate::text::views(pieces@) == split(t@, ','),
            items@.len() == i,
            forall|k: int|
                0 <= k < i ==> typed_value(#[trigger] items@[k], trim(split(t@, ',')[k]), bools),
        decreases pieces@.len() - i,
    {
        assert(crate::text::views(pieces@)[i as int] == pieces@[i as int]@);
        let v = typed(trimmed(pieces[i].as_str()), bools);
        items.push(v);
        i = i + 1;
    }
    FilterValue::Array(items)
}

/// The operator that a name stands for in query text.
pub open spec fn operator_named(name: Seq<char>) -> Option<FilterOperator> {
    if name == "eq"@ {
        Some(FilterOperator::Eq)
    } else if name == "ne"@ {
        Some(FilterOperator::Ne)
    } else if name == "gt"@ {
        Some(FilterOperator::Gt)
    } else if name == "lt"@ {
        Some(FilterOperator::Lt)
    } else if name == "gte"@ {
        Some(FilterOperator::Gte)
    } else if name == "lte"@ {
        Some(FilterOperator::Lte)
    } else if name == "like"@ {
        Some(FilterOperator::Like)
    } else if name == "ilike"@ {
        Some(FilterOperator::ILike)
    } else if name == "in"@ {
        Some(FilterOperator::In)
    } else if name == "not_in"@ {
        Some(FilterOperator::NotIn)
    } else if name == "is_null"@ {
        Some(FilterOperator::IsNull)
    } else if name == "is_not_null"@ {
        Some(FilterOperator::IsNotNull)
    } else if name == "between"@ {
        Some(FilterOperator::Between)
    } else if name == "contains"@ {
        Some(FilterOperator::Contains)
    } else {
        None
    }
}

fn operator_of(name: &str) -> (r: Option<FilterOperator>)
    ensures
        r == operator_named(name@),
{
    if text_is(name, "eq") {
        Some(FilterOperator::Eq)
    } else if text_is(name, "ne") {
        Some(FilterOperator::Ne)
    } else if text_is(name, "gt") {
        Some(FilterOperator::Gt)
    } else if text_is(name, "lt") {
        Some(FilterOperator::Lt)
    } else if text_is(name, "gte") {
        Some(FilterOperator::Gte)
    } else if text_is(name, "lte") {
        Some(FilterOperator::Lte)
    } else if text_is(name, "like") {
        Some(FilterOperator::Like)
    } else if text_is(name, "ilike") {
        Some(FilterOperator::ILike)
    } else if text_is(name, "in") {
        Some(FilterOperator::In)
    } else if text_is(name, "not_in") {
        Some(FilterOperator::NotIn)
    } else if text_is(name, "is_null") {
        Some(FilterOperator::IsNull)
    } else if text_is(name, "is_not_null") {
        Some(FilterOperator::IsNotNull)
    } else if text_is(name, "between") {
        Some(FilterOperator::Between)
    } else if text_is(name, "contains") {
        Some(FilterOperator::Contains)
    } else {
        None
    }
}

/// The field, operator name and value of `field:operator:value`; the value
/// may itself hold colons.
pub open spec fn colon_parts(s: Seq<char>) -> Option<(Seq<char>, Seq<char>, Seq<char>)> {
    match find_from(s, ':', 0) {
        None => None,
        Some(k1) => match find_from(s, ':', k1 + 1) {
            None => None,
            Some(k2) => Some((s.subrange(0, k1), s.subrange(k1 + 1, k2), s.subrange(k2 + 1, s.len() as int))),
        },
    }
}

/// The value of a filter read from query text for `op`: none for the null
/// tests, a list for `in`, `not_in` (booleans read) and `between` (booleans
/// not read), one value otherwise.
pub open spec fn filter_value_read(op: FilterOperator, v: FilterValue, text: Seq<char>) -> bool {
    match op {
        FilterOperator::IsNull | FilterOperator::IsNotNull => v == FilterValue::Null,
        FilterOperator::In | FilterOperator::NotIn => typed_list(v, text, true),
        FilterOperator::Between => typed_list(v, text, false),
        _ => typed_value(v, text, true),
    }
}

proof fn lemma_find_bounds(s: Seq<char>, c: char, i: int)
    ensures
        find_from(s, c, i) matches Some(k) ==> i <= k < s.len() && s[k] == c,
        find_from(s, c, i) is None && 0 <= i ==> forall|k: int| i <= k < s.len() ==> s[k] != c,
    decreases s.len() - i,
{
    if 0 <= i < s.len() && s[i] != c {
        lemma_find_bounds(s, c, i + 1);
    }
}

fn find_char(t: &str, c: char, from: usize) -> (r: Option<usize>)
    requires
        from <= t@.len(),
    ensures
        match find_from(t@, c, from as int) {
            Some(k) => r == Some(k as usize),
            None => r is None,
        },
{
    let n = t.unicode_len();
    let mut i = from;
    while i < n
        invariant
            n == t@.len(),
            from <= i <= n,
            find_from(t@, c, from as int) == find_from(t@, c, i as int),
        decreases n - i,
    {
        if t.get_char(i) == c {
            return Some(i);
        }
        i = i + 1;
    }
    None
}

/// Reads a filter written `field:operator:value`. Nothing when there are
/// fewer than two colons or the operator name is unknown.
pub fn parse_filter(filter_str: &str) -> (r: Option<Filter>)
    ensures
        match colon_parts(filter_str@) {
            None => r is None,
            Some((field, name, text)) => match operator_named(name) {
                None => r is None,
                Some(op) => r matches Some(f) && f.field@ == field && f.operator == op
                    && filter_value_read(op, f.value, text),
            },
        },
{
    let n = filter_str.unicode_len();
    let k1 = match find_char(filter_str, ':', 0) {
        Some(k) => k,
        None => {
            return None;
        },
    };
    proof {
        lemma_find_bounds(filter_str@, ':', 0);
    }
    let k2 = match find_char(filter_str, ':', k1 + 1) {
        Some(k) => k,
        None => {
            return None;
        },
    };
    proof {
        lemma_find_bounds(filter_str@, ':', k1 + 1);
    }
    let field = filter_str.substring_char(0, k1).to_owned();
    let name = filter_str.substring_char(k1 + 1, k2);
    let text = filter_str.substring_char(k2 + 1, n);
    let op = match operator_of(name) {
        Some(op) => op,
        None => {
            return None;
        },
    };
    let value = match op {
        FilterOperator::IsNull | FilterOperator::IsNotNull => FilterValue::Null,
        FilterOperator::In | FilterOperator::NotIn => typed_items(text, true),
        FilterOperator::Between => typed_items(text, false),
        _ => typed(text.to_owned(), true),
    };
    Some(Filter { field, operator: op, value })
}

} // verus!
