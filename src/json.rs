//! JSON string literals: escaping as serde_json writes it, and reading back.
use vstd::prelude::*;

verus! {

/// Lowercase hexadecimal digit for `d` (0 to 15).
pub open spec fn hex_digit(d: nat) -> char {
    if d < 10 {
        ((d + 48) as u8) as char
    } else {
        ((d + 87) as u8) as char
    }
}

/// Value of a hexadecimal digit, either case.
pub open spec fn hex_value(c: char) -> Option<nat> {
    if '0' <= c && c <= '9' {
        Some((c as u32 - 48) as nat)
    } else if 'a' <= c && c <= 'f' {
        Some((c as u32 - 87) as nat)
    } else if 'A' <= c && c <= 'F' {
        Some((c as u32 - 55) as nat)
    } else {
        None
    }
}

/// Value of the four hexadecimal digits of `t` at `i`.
pub open spec fn hex4(t: Seq<char>, i: int) -> Option<nat> {
    if 0 <= i && i + 4 <= t.len() && hex_value(t[i]) is Some && hex_value(t[i + 1]) is Some
        && hex_value(t[i + 2]) is Some && hex_value(t[i + 3]) is Some {
        Some(
            hex_value(t[i])->0 * 4096 + hex_value(t[i + 1])->0 * 256 + hex_value(t[i + 2])->0 * 16
                + hex_value(t[i + 3])->0,
        )
    } else {
        None
    }
}

/// The character a `\u` escape at the start of `t` stands for, and its
/// length; a character beyond the basic plane is written as a surrogate
/// pair of two escapes, and a lone surrogate stands for nothing.
#[verifier::opaque]
pub open spec fn unicode_escape(t: Seq<char>) -> Option<(char, nat)> {
    match hex4(t, 2) {
        None => None,
        Some(v) => if v < 0xD800 || 0xDFFF < v {
            Some(((v as u32) as char, 6))
        } else if v <= 0xDBFF && t.len() >= 12 && t[6] == '\\' && t[7] == 'u' {
            match hex4(t, 8) {
                Some(w) => if 0xDC00 <= w && w <= 0xDFFF {
                    Some((((0x10000 + (v - 0xD800) * 0x400 + (w - 0xDC00)) as u32) as char, 12))
                } else {
                    None
                },
                None => None,
            }
        } else {
            None
        },
    }
}

/// How one character is written inside a JSON string: quote and backslash
/// escaped, the usual short escapes for control characters, `\u00xx` for the
/// other control characters, everything else as is.
pub open spec fn escape_char(c: char) -> Seq<char> {
    if c == '"' {
        seq!['\\', '"']
    } else if c == '\\' {
        seq!['\\', '\\']
    } else if c == '\u{8}' {
        seq!['\\', 'b']
    } else if c == '\u{c}' {
        seq!['\\', 'f']
    } else if c == '\n' {
        seq!['\\', 'n']
    } else if c == '\r' {
        seq!['\\', 'r']
    } else if c == '\t' {
        seq!['\\', 't']
    } else if (c as u32) < 32 {
        seq!['\\', 'u', '0', '0', hex_digit((c as u32 / 16) as nat), hex_digit((c as u32 % 16) as nat)]
    } else {
        seq![c]
    }
}

/// The escaped characters of `s`.
pub open spec fn escape(s: Seq<char>) -> Seq<char>
    decreases s.len(),
{
    if s.len() == 0 {
        Seq::empty()
    } else {
        escape_char(s[0]) + escape(s.drop_first())
    }
}

/// `s` as a JSON string literal.
pub open spec fn quoted(s: Seq<char>) -> Seq<char> {
    seq!['"'] + escape(s) + seq!['"']
}

/// The character that the escape sequence at the start of `t` stands for,
/// and the length of the sequence.
pub open spec fn unescape_one(t: Seq<char>) -> Option<(char, nat)> {
    if t.len() < 2 || t[0] != '\\' {
        None
    } else {
        let e = t[1];
        if e == '"' {
            Some(('"', 2))
        } else if e == '\\' {
            Some(('\\', 2))
        } else if e == 'b' {
            Some(('\u{8}', 2))
        } else if e == 'f' {
            Some(('\u{c}', 2))
        } else if e == 'n' {
            Some(('\n', 2))
        } else if e == 'r' {
            Some(('\r', 2))
        } else if e == 't' {
            Some(('\t', 2))
        } else if e == '/' {
            Some(('/', 2))
        } else if e == 'u' {
            unicode_escape(t)
        } else {
            None
        }
    }
}

/// Reads the body of a string literal up to and including its closing
/// quote: the characters it holds and the number of characters read.
pub open spec fn unescape(t: Seq<char>) -> Option<(Seq<char>, nat)>
    decreases t.len(),
{
    if t.len() == 0 {
        None
    } else if t[0] == '"' {
        Some((Seq::empty(), 1))
    } else if t[0] == '\\' {
        match unescape_one(t) {
            Some((c, k)) => if 1 <= k <= t.len() {
                match unescape(t.skip(k as int)) {
                    Some((s, n)) => Some((seq![c] + s, n + k)),
                    None => None,
                }
            } else {
                None
            },
            None => None,
        }
    } else if (t[0] as u32) < 32 {
        None
    } else {
        match unescape(t.skip(1)) {
            Some((s, n)) => Some((seq![t[0]] + s, n + 1)),
            None => None,
        }
    }
}

proof fn lemma_escape_push(s: Seq<char>, c: char)
    ensures
        escape(s.push(c)) == escape(s) + escape_char(c),
    decreases s.len(),
{
    if s.len() == 0 {
        let e = Seq::<char>::empty();
        assert(s.push(c).drop_first() =~= e);
        assert(escape(e) == e);
        assert(escape(s) == e);
        assert(escape(s.push(c)) == escape_char(c) + escape(e));
        assert(escape(s.push(c)) =~= escape(s) + escape_char(c));
    } else {
        assert(s.push(c).drop_first() =~= s.drop_first().push(c));
        lemma_escape_push(s.drop_first(), c);
        assert(escape(s.push(c)) =~= escape(s) + escape_char(c));
    }
}

proof fn lemma_unescape_one_escape(c: char, rest: Seq<char>)
    requires
        escape_char(c).len() > 1,
    ensures
        unescape_one(escape_char(c) + rest) == Some((c, escape_char(c).len())),
{
    let t = escape_char(c) + rest;
    if c == '"' || c == '\\' || c == '\u{8}' || c == '\u{c}' || c == '\n' || c == '\r' || c
        == '\t' {
    } else {
        let u = c as u32;
        let hi = (u / 16) as nat;
        let lo = (u % 16) as nat;
        assert(t[2] == '0' && t[3] == '0');
        assert(t[4] == hex_digit(hi));
        assert(t[5] == hex_digit(lo));
        assert(hex_value(hex_digit(hi)) == Some(hi));
        assert(hex_value(hex_digit(lo)) == Some(lo));
        assert(hex4(t, 2) == Some(hi * 16 + lo));
        assert((hi * 16 + lo) as u32 == u);
        vstd::utf8::char_u32_cast(c, u);
        reveal(unicode_escape);
    }
}

/// Reading the escaped characters of `s` followed by a closing quote gives
/// back `s`, whatever follows.
pub proof fn lemma_unescape_escape(s: Seq<char>, rest: Seq<char>)
    ensures
        unescape(escape(s) + seq!['"'] + rest) == Some((s, escape(s).len() + 1)),
    decreases s.len(),
{
    let t = escape(s) + seq!['"'] + rest;
    if s.len() == 0 {
        assert(t[0] == '"');
    } else {
        let c = s[0];
        let tail = s.drop_first();
        let u = escape(tail) + seq!['"'] + rest;
        lemma_unescape_escape(tail, rest);
        let e = escape_char(c);
        assert(t =~= e + u);
        assert(t.skip(e.len() as int) =~= u);
        assert(seq![c] + tail =~= s);
        if e.len() > 1 {
            lemma_unescape_one_escape(c, u);
            assert(t[0] == '\\');
        } else {
            assert(t[0] == c);
        }
    }
}

/// Appends `s` as a JSON string literal.
pub fn push_quoted(out: &mut String, s: &str)
    ensures
        final(out)@ == old(out)@ + quoted(s@),
{
    let ghost start = out@;
    out.push('"');
    let n = s.unicode_len();
    let mut i: usize = 0;
    while i < n
        invariant
            n == s@.len(),
            i <= n,
            out@ == start + seq!['"'] + escape(s@.take(i as int)),
        decreases n - i,
    {
        let c = s.get_char(i);
        proof {
            assert(s@.take(i as int + 1) =~= s@.take(i as int).push(c));
            lemma_escape_push(s@.take(i as int), c);
        }
        push_escaped_char(out, c);
        assert(out@ =~= start + seq!['"'] + escape(s@.take(i as int + 1)));
        i = i + 1;
    }
    assert(s@.take(n as int) =~= s@);
    out.push('"');
    assert(final(out)@ =~= old(out)@ + quoted(s@));
}

fn hex_char(d: u32) -> (r: char)
    requires
        d < 16,
    ensures
        r == hex_digit(d as nat),
{
    if d < 10 {
        ((d as u8) + 48) as char
    } else {
        ((d as u8) + 87) as char
    }
}

fn push_escaped_char(out: &mut String, c: char)
    ensures
        final(out)@ == old(out)@ + escape_char(c),
{
    if c == '"' {
        out.push('\\');
        out.push('"');
    } else if c == '\\' {
        out.push('\\');
        out.push('\\');
    } else if c == '\u{8}' {
        out.push('\\');
        out.push('b');
    } else if c == '\u{c}' {
        out.push('\\');
        out.push('f');
    } else if c == '\n' {
        out.push('\\');
        out.push('n');
    } else if c == '\r' {
        out.push('\\');
        out.push('r');
    } else if c == '\t' {
        out.push('\\');
        out.push('t');
    } else if (c as u32) < 32 {
        out.push('\\');
        out.push('u');
        out.push('0');
        out.push('0');
        out.push(hex_char(c as u32 / 16));
        out.push(hex_char(c as u32 % 16));
    } else {
        out.push(c);
    }
    assert(final(out)@ =~= old(out)@ + escape_char(c));
}

fn hex_value_of(c: char) -> (r: Option<u32>)
    ensures
        match hex_value(c) {
            Some(v) => r == Some(v as u32) && v < 16,
            None => r is None,
        },
{
    if '0' <= c && c <= '9' {
        Some(c as u32 - 48)
    } else if 'a' <= c && c <= 'f' {
        Some(c as u32 - 87)
    } else if 'A' <= c && c <= 'F' {
        Some(c as u32 - 55)
    } else {
        None
    }
}

fn unescape_one_at(t: &str, n: usize, i: usize) -> (r: Option<(char, usize)>)
    requires
        n == t@.len(),
        i < n,
        t@[i as int] == '\\',
    ensures
        match unescape_one(t@.skip(i as int)) {
            Some((c, k)) => r matches Some((c2, k2)) && c2 == c && k2 == k,
            None => r is None,
        },
        r matches Some((c, k)) ==> 2 <= k && i + k <= n,
{
    let ghost u = t@.skip(i as int);
    if i + 1 >= n {
        return None;
    }
    let e = t.get_char(i + 1);
    assert(u[1] == e);
    if e == '"' {
        Some(('"', 2))
    } else if e == '\\' {
        Some(('\\', 2))
    } else if e == 'b' {
        Some(('\u{8}', 2))
    } else if e == 'f' {
        Some(('\u{c}', 2))
    } else if e == 'n' {
        Some(('\n', 2))
    } else if e == 'r' {
        Some(('\r', 2))
    } else if e == 't' {
        Some(('\t', 2))
    } else if e == '/' {
        Some(('/', 2))
    } else if e == 'u' {
        unicode_escape_at(t, n, i)
    } else {
        None
    }
}

/// Relies on `char::from_u32`: a character exactly for the Unicode scalar
/// values, whose code it then is.
pub assume_specification[ core::char::from_u32 ](i: u32) -> (r: Option<char>)
    ensures
        r is Some <==> (i < 0xD800 || (0xDFFF < i && i <= 0x10FFFF)),
        r matches Some(c) ==> c as u32 == i,
;

fn hex4_at(t: &str, n: usize, i: usize) -> (r: Option<u32>)
    requires
        n == t@.len(),
    ensures
        match hex4(t@, i as int) {
            Some(v) => r == Some(v as u32),
            None => r is None,
        },
{
    if i > n || n - i < 4 {
        return None;
    }
    match (
        hex_value_of(t.get_char(i)),
        hex_value_of(t.get_char(i + 1)),
        hex_value_of(t.get_char(i + 2)),
        hex_value_of(t.get_char(i + 3)),
    ) {
        (Some(a), Some(b), Some(c), Some(d)) => Some(a * 4096 + b * 256 + c * 16 + d),
        _ => None,
    }
}

#[verifier::rlimit(60)]
fn unicode_escape_at(t: &str, n: usize, i: usize) -> (r: Option<(char, usize)>)
    requires
        n == t@.len(),
        i < n,
    ensures
        match unicode_escape(t@.skip(i as int)) {
            Some((c, k)) => r matches Some((c2, k2)) && c2 == c && k2 == k,
            None => r is None,
        },
        r matches Some((c, k)) ==> 2 <= k && i + k <= n,
{
    reveal(unicode_escape);
    let ghost u = t@.skip(i as int);
    if n - i < 6 {
        return None;
    }
    let v = match hex4_at(t, n, i + 2) {
        Some(v) => v,
        None => {
            assert(hex4(u, 2) is None) by {
                if hex4(u, 2) is Some {
                    assert(u[2] == t@[i + 2] && u[3] == t@[i + 3] && u[4] == t@[i + 4] && u[5]
                        == t@[i + 5]);
                }
            }
            return None;
        },
    };
    assert(u[2] == t@[i + 2] && u[3] == t@[i + 3] && u[4] == t@[i + 4] && u[5] == t@[i + 5]);
    assert(hex4(u, 2) == Some(v as nat));
    if v < 0xD800 || 0xDFFF < v {
        match core::char::from_u32(v) {
            Some(c) => {
                proof {
                    vstd::utf8::char_u32_cast(c, v);
                }
                Some((c, 6))
            },
            None => None,
        }
    } else if v <= 0xDBFF && n - i >= 12 && t.get_char(i + 6) == '\\' && t.get_char(i + 7) == 'u' {
        assert(u[6] == t@[i + 6] && u[7] == t@[i + 7]);
        match hex4_at(t, n, i + 8) {
            Some(w) => {
                assert(u[8] == t@[i + 8] && u[9] == t@[i + 9] && u[10] == t@[i + 10] && u[11]
                    == t@[i + 11]);
                assert(hex4(u, 8) == Some(w as nat));
                if 0xDC00 <= w && w <= 0xDFFF {
                    let code: u32 = 0x10000 + (v - 0xD800) * 0x400 + (w - 0xDC00);
                    match core::char::from_u32(code) {
                        Some(c) => {
                            proof {
                                vstd::utf8::char_u32_cast(c, code);
                            }
                            Some((c, 12))
                        },
                        None => None,
                    }
                } else {
                    None
                }
            },
            None => {
                assert(hex4(u, 8) is None) by {
                    if hex4(u, 8) is Some {
                        assert(u[8] == t@[i + 8] && u[9] == t@[i + 9] && u[10] == t@[i + 10]
                            && u[11] == t@[i + 11]);
                    }
                }
                None
            },
        }
    } else {
        assert(!(v <= 0xDBFF && u.len() >= 12 && u[6] == '\\' && u[7] == 'u')) by {
            if n - i >= 12 {
                assert(u[6] == t@[i + 6] && u[7] == t@[i + 7]);
            }
        }
        None
    }
}

/// `unescape` of `rest`, with `done` read before it in `k` characters.
pub open spec fn after(done: Seq<char>, k: nat, rest: Option<(Seq<char>, nat)>) -> Option<
    (Seq<char>, nat),
> {
    match rest {
        Some((s, n)) => Some((done + s, n + k)),
        None => None,
    }
}

/// Reads a string literal whose body starts at `start` (just past its
/// opening quote): what it holds and the position just past its closing quote.
pub fn read_quoted(t: &str, start: usize) -> (r: Option<(String, usize)>)
    requires
        start <= t@.len(),
    ensures
        match unescape(t@.skip(start as int)) {
            Some((s, n)) => r matches Some((v, e)) && v@ == s && e == start + n,
            None => r is None,
        },
        r matches Some((v, e)) ==> start < e <= t@.len(),
{
    let n = t.unicode_len();
    let mut out = String::new();
    let mut i: usize = start;
    while i < n
        invariant
            n == t@.len(),
            start <= i <= n,
            unescape(t@.skip(start as int)) == after(out@, (i - start) as nat, unescape(t@.skip(i as int))),
        decreases n - i,
    {
        let c = t.get_char(i);
        let ghost u = t@.skip(i as int);
        assert(u[0] == c);
        if c == '"' {
            assert(out@ + Seq::<char>::empty() =~= out@);
            return Some((out, i + 1));
        } else if c == '\\' {
            match unescape_one_at(t, n, i) {
                Some((ch, k)) => {
                    assert(1 <= k <= u.len());
                    assert(u.skip(k as int) =~= t@.skip(i + k));
                    assert(unescape_one(u) == Some((ch, k as nat)));
                    assert(unescape(u) == after(seq![ch], k as nat, unescape(t@.skip(i + k))));
                    proof {
                        let tail = unescape(t@.skip(i + k));
                        if tail is Some {
                            let (s2, n2) = tail->0;
                            assert(out@ + (seq![ch] + s2) =~= out@.push(ch) + s2);
                        }
                    }
                    out.push(ch);
                    i = i + k;
                },
                None => {
                    return None;
                },
            }
        } else if (c as u32) < 32 {
            return None;
        } else {
            assert(u.skip(1) =~= t@.skip(i + 1));
            proof {
                let tail = unescape(t@.skip(i + 1));
                if tail is Some {
                    let (s2, n2) = tail->0;
                    assert(out@ + (seq![c] + s2) =~= out@.push(c) + s2);
                }
            }
            out.push(c);
            i = i + 1;
        }
    }
    assert(t@.skip(i as int).len() == 0);
    None
}

} // verus!
