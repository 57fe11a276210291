//! Character-level building blocks: appending to strings, decimal
//! rendering of integers, SQL string quoting and joining with a separator.
use vstd::prelude::*;

verus! {

/// Relies on `String::push`: the character is appended at the end.
pub assume_specification[ std::string::String::push ](s: &mut std::string::String, ch: char)
    ensures
        final(s)@ == old(s)@.push(ch),
;

/// Relies on `String::push_str`: the characters of `string` are appended at the end.
pub assume_specification[ std::string::String::push_str ](s: &mut std::string::String, string: &str)
    ensures
        final(s)@ == old(s)@ + string@,
;

/// The ASCII digit for `d` (0 to 9).
pub open spec fn digit_char(d: nat) -> char {
    ((d + 48) as u8) as char
}

/// Decimal digits of `n`, most significant first, without leading zeros.
pub open spec fn decimal(n: nat) -> Seq<char>
    decreases n,
{
    if n < 10 {
        seq![digit_char(n)]
    } else {
        decimal(n / 10).push(digit_char(n % 10))
    }
}

/// Decimal text of a signed integer: a minus sign before negative values.
pub open spec fn int_text(i: int) -> Seq<char> {
    if i < 0 {
        seq!['-'] + decimal((-i) as nat)
    } else {
        decimal(i as nat)
    }
}

/// The characters of `s` with every single quote doubled.
pub open spec fn double_quotes(s: Seq<char>) -> Seq<char>
    decreases s.len(),
{
    if s.len() == 0 {
        Seq::empty()
    } else {
        let c = s.last();
        double_quotes(s.drop_last()) + if c == '\'' {
            seq!['\'', '\'']
        } else {
            seq![c]
        }
    }
}

/// A SQL string literal holding `s`: single-quoted, inner quotes doubled.
pub open spec fn sql_quoted(s: Seq<char>) -> Seq<char> {
    seq!['\''] + double_quotes(s) + seq!['\'']
}

/// The parts in order, with `sep` between each two neighbours.
pub open spec fn joined(parts: Seq<Seq<char>>, sep: Seq<char>) -> Seq<char>
    decreases parts.len(),
{
    if parts.len() == 0 {
        Seq::empty()
    } else if parts.len() == 1 {
        parts[0]
    } else {
        joined(parts.drop_last(), sep) + sep + parts.last()
    }
}

/// The views of a vector of strings.
pub open spec fn views(v: Seq<String>) -> Seq<Seq<char>> {
    v.map_values(|s: String| s@)
}

/// Appends the decimal digits of `n`.
pub fn push_u64(out: &mut String, n: u64)
    ensures
        final(out)@ == old(out)@ + decimal(n as nat),
    decreases n,
{
    if n >= 10 {
        push_u64(out, n / 10);
    }
    let d: u8 = (n % 10) as u8;
    out.push((d + 48) as char);
    assert(final(out)@ =~= old(out)@ + decimal(n as nat));
}

/// Appends the decimal text of `n`, with a minus sign when negative.
pub fn push_i64(out: &mut String, n: i64)
    ensures
        final(out)@ == old(out)@ + int_text(n as int),
{
    if n < 0 {
        out.push('-');
        let m: u64 = ((-(n + 1)) as u64) + 1;
        push_u64(out, m);
        assert(final(out)@ =~= old(out)@ + int_text(n as int));
    } else {
        push_u64(out, n as u64);
    }
}

/// Decimal text of `n`.
pub fn u32_text(n: u32) -> (r: String)
    ensures
        r@ == decimal(n as nat),
{
    let mut r = String::new();
    push_u64(&mut r, n as u64);
    assert(r@ =~= decimal(n as nat));
    r
}

/// Appends the characters of `s` with every single quote doubled.
pub fn push_doubled_quotes(out: &mut String, s: &str)
    ensures
        final(out)@ == old(out)@ + double_quotes(s@),
{
    let ghost start = out@;
    let n = s.unicode_len();
    let mut i: usize = 0;
    while i < n
        invariant
            n == s@.len(),
            i <= n,
            out@ == start + double_quotes(s@.take(i as int)),
        decreases n - i,
    {
        let c = s.get_char(i);
        proof {
            assert(s@.take(i as int + 1).drop_last() =~= s@.take(i as int));
        }
        if c == '\'' {
            out.push('\'');
            out.push('\'');
        } else {
            out.push(c);
        }
        assert(out@ =~= start + double_quotes(s@.take(i as int + 1)));
        i = i + 1;
    }
    assert(s@.take(n as int) =~= s@);
}

/// Appends `s` as a SQL string literal: single-quoted, inner quotes doubled.
pub fn push_sql_quoted(out: &mut String, s: &str)
    ensures
        final(out)@ == old(out)@ + sql_quoted(s@),
{
    out.push('\'');
    push_doubled_quotes(out, s);
    out.push('\'');
    assert(final(out)@ =~= old(out)@ + sql_quoted(s@));
}

/// Joins the strings in order with `sep` between neighbours.
pub fn join(parts: &Vec<String>, sep: &str) -> (r: String)
    ensures
        r@ == joined(views(parts@), sep@),
{
    let mut r = String::new();
    let mut i: usize = 0;
    while i < parts.len()
        invariant
            i <= parts@.len(),
            r@ == joined(views(parts@.take(i as int)), sep@),
        decreases parts@.len() - i,
    {
        proof {
            assert(views(parts@.take(i as int + 1)).drop_last() =~= views(parts@.take(i as int)));
        }
        if i > 0 {
            r.push_str(sep);
        }
        r.push_str(parts[i].as_str());
        assert(r@ =~= joined(views(parts@.take(i as int + 1)), sep@));
        i = i + 1;
    }
    assert(parts@.take(i as int) =~= parts@);
    r
}

/// `true` when `t` from `from` on is exactly `lit`.
pub fn rest_is(t: &str, from: usize, lit: &str) -> (r: bool)
    requires
        from <= t@.len(),
    ensures
        r == (t@.skip(from as int) == lit@),
{
    let n = t.unicode_len();
    let m = lit.unicode_len();
    if n - from != m {
        assert(t@.skip(from as int).len() != lit@.len());
        return false;
    }
    let mut i: usize = 0;
    while i < m
        invariant
            n == t@.len(),
            m == lit@.len(),
            n - from == m,
            i <= m,
            forall|j: int| 0 <= j < i ==> t@[from + j] == lit@[j],
        decreases m - i,
    {
        if t.get_char(from + i) != lit.get_char(i) {
            assert(t@.skip(from as int)[i as int] != lit@[i as int]);
            return false;
        }
        i = i + 1;
    }
    assert(t@.skip(from as int) =~= lit@);
    true
}

/// `true` when `t` is exactly `lit`.
pub fn text_is(t: &str, lit: &str) -> (r: bool)
    ensures
        r == (t@ == lit@),
{
    assert(t@.skip(0) =~= t@);
    rest_is(t, 0, lit)
}

} // verus!
