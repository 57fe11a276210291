//! JSON number syntax: recognising integer and fractional literals, and
//! reading integers back.
use vstd::prelude::*;

use crate::text::{decimal, digit_char, int_text};

verus! {

/// Where a scan of a JSON number stands after some characters.
#[derive(Clone, Copy, Debug, PartialEq, Eq, Structural)]
pub enum NumberState {
    Start,
    Minus,
    Zero,
    IntDigits,
    Dot,
    FracDigits,
    Exp,
    ExpSign,
    ExpDigits,
    Fail,
}

pub open spec fn is_digit(c: char) -> bool {
    '0' <= c && c <= '9'
}

/// Characters that can occur in a JSON number.
pub open spec fn is_number_char(c: char) -> bool {
    is_digit(c) || c == '-' || c == '+' || c == '.' || c == 'e' || c == 'E'
}

/// One step of the scan: `-? (0 | [1-9][0-9]*) (. [0-9]+)? ([eE] [+-]? [0-9]+)?`.
pub open spec fn step(s: NumberState, c: char) -> NumberState {
    let d = is_digit(c);
    let e = c == 'e' || c == 'E';
    match s {
        NumberState::Start => if c == '-' {
            NumberState::Minus
        } else if c == '0' {
            NumberState::Zero
        } else if d {
            NumberState::IntDigits
        } else {
            NumberState::Fail
        },
        NumberState::Minus => if c == '0' {
            NumberState::Zero
        } else if d {
            NumberState::IntDigits
        } else {
            NumberState::Fail
        },
        NumberState::Zero => if c == '.' {
            NumberState::Dot
        } else if e {
            NumberState::Exp
        } else {
            NumberState::Fail
        },
        NumberState::IntDigits => if d {
            NumberState::IntDigits
        } else if c == '.' {
            NumberState::Dot
        } else if e {
            NumberState::Exp
        } else {
            NumberState::Fail
        },
        NumberState::Dot => if d {
            NumberState::FracDigits
        } else {
            NumberState::Fail
        },
        NumberState::FracDigits => if d {
            NumberState::FracDigits
        } else if e {
            NumberState::Exp
        } else {
            NumberState::Fail
        },
        NumberState::Exp => if c == '+' || c == '-' {
            NumberState::ExpSign
        } else if d {
            NumberState::ExpDigits
        } else {
            NumberState::Fail
        },
        NumberState::ExpSign => if d {
            NumberState::ExpDigits
        } else {
            NumberState::Fail
        },
        NumberState::ExpDigits => if d {
            NumberState::ExpDigits
        } else {
            NumberState::Fail
        },
        NumberState::Fail => NumberState::Fail,
    }
}

/// The state after scanning all of `t`.
pub open spec fn scan(t: Seq<char>) -> NumberState
    decreases t.len(),
{
    if t.len() == 0 {
        NumberState::Start
    } else {
        step(scan(t.drop_last()), t.last())
    }
}

/// A JSON number without fraction or exponent.
pub open spec fn is_int_literal(t: Seq<char>) -> bool {
    scan(t) == NumberState::Zero || scan(t) == NumberState::IntDigits
}

/// A JSON number with a fraction or an exponent.
pub open spec fn is_fraction_literal(t: Seq<char>) -> bool {
    scan(t) == NumberState::FracDigits || scan(t) == NumberState::ExpDigits
}

/// Value of a string of decimal digits.
pub open spec fn digits_value(t: Seq<char>) -> int
    decreases t.len(),
{
    if t.len() == 0 {
        0
    } else {
        digits_value(t.drop_last()) * 10 + (t.last() as u32 - 48)
    }
}

/// Value of an integer literal.
pub open spec fn int_literal_value(t: Seq<char>) -> int {
    if t.len() > 0 && t[0] == '-' {
        -digits_value(t.drop_first())
    } else {
        digits_value(t)
    }
}

/// How many leading characters of `t` can belong to a number.
pub open spec fn number_len(t: Seq<char>) -> nat
    decreases t.len(),
{
    if t.len() == 0 || !is_number_char(t[0]) {
        0
    } else {
        1 + number_len(t.drop_first())
    }
}

proof fn lemma_digit_char(d: nat)
    requires
        d < 10,
    ensures
        digit_char(d) as u32 == d + 48,
        is_digit(digit_char(d)),
        d > 0 ==> digit_char(d) != '0',
{
    let b = (d + 48) as u8;
    assert(b as u32 == d + 48);
    assert((b as char) as u32 == b as u32);
}

proof fn lemma_decimal_digits(n: nat)
    ensures
        decimal(n).len() >= 1,
        forall|k: int| 0 <= k < decimal(n).len() ==> #[trigger] is_digit(decimal(n)[k]),
        n > 0 ==> decimal(n)[0] != '0',
        digits_value(decimal(n)) == n,
    decreases n,
{
    lemma_digit_char(n % 10);
    if n >= 10 {
        lemma_decimal_digits(n / 10);
        assert(decimal(n).drop_last() =~= decimal(n / 10));
        assert(decimal(n)[0] == decimal(n / 10)[0]);
        assert(decimal(n).last() == digit_char(n % 10));
        assert((n / 10) * 10 + n % 10 == n);
        assert(digits_value(decimal(n)) == digits_value(decimal(n / 10)) * 10 + (n % 10));
        assert forall|k: int| 0 <= k < decimal(n).len() implies #[trigger] is_digit(
            decimal(n)[k],
        ) by {
            if k < decimal(n).len() - 1 {
                assert(decimal(n)[k] == decimal(n / 10)[k]);
            }
        }
    } else {
        assert(decimal(n).drop_last() =~= Seq::<char>::empty());
        assert(digits_value(Seq::<char>::empty()) == 0);
        assert(decimal(n).last() == digit_char(n));
    }
}

proof fn lemma_scan_decimal(prefix: Seq<char>, n: nat)
    requires
        scan(prefix) == NumberState::Start || scan(prefix) == NumberState::Minus,
    ensures
        scan(prefix + decimal(n)) == (if n == 0 {
            NumberState::Zero
        } else {
            NumberState::IntDigits
        }),
    decreases n,
{
    if n >= 10 {
        lemma_scan_decimal(prefix, n / 10);
        assert((prefix + decimal(n)).drop_last() =~= prefix + decimal(n / 10));
    } else {
        assert((prefix + decimal(n)).drop_last() =~= prefix);
    }
}

/// Once the scan has not failed, every character read was a number character.
pub proof fn lemma_scan_chars(t: Seq<char>)
    requires
        scan(t) != NumberState::Fail,
    ensures
        forall|k: int| 0 <= k < t.len() ==> #[trigger] is_number_char(t[k]),
    decreases t.len(),
{
    if t.len() > 0 {
        lemma_scan_chars(t.drop_last());
        assert forall|k: int| 0 <= k < t.len() implies #[trigger] is_number_char(t[k]) by {
            if k < t.len() - 1 {
                assert(t[k] == t.drop_last()[k]);
            }
        }
    }
}

proof fn lemma_number_len(x: Seq<char>, y: Seq<char>)
    requires
        forall|k: int| 0 <= k < x.len() ==> #[trigger] is_number_char(x[k]),
        y.len() == 0 || !is_number_char(y[0]),
    ensures
        number_len(x + y) == x.len(),
    decreases x.len(),
{
    if x.len() == 0 {
        assert(x + y =~= y);
    } else {
        assert((x + y).drop_first() =~= x.drop_first() + y);
        lemma_number_len(x.drop_first(), y);
    }
}

/// The decimal text of an integer is an integer literal of that value, made
/// of number characters only.
pub proof fn lemma_int_text(i: int)
    ensures
        is_int_literal(int_text(i)),
        int_literal_value(int_text(i)) == i,
        int_text(i).len() >= 1,
        int_text(i)[0] != '"',
        forall|k: int| 0 <= k < int_text(i).len() ==> #[trigger] is_number_char(int_text(i)[k]),
{
    let n: nat = if i < 0 {
        (-i) as nat
    } else {
        i as nat
    };
    lemma_decimal_digits(n);
    if i < 0 {
        let m = seq!['-'];
        assert(m.drop_last() =~= Seq::<char>::empty());
        assert(scan(m.drop_last()) == NumberState::Start);
        assert(m.last() == '-');
        assert(scan(m) == NumberState::Minus);
        lemma_scan_decimal(m, n);
        assert(int_text(i).drop_first() =~= decimal(n));
        assert forall|k: int| 0 <= k < int_text(i).len() implies #[trigger] is_number_char(
            int_text(i)[k],
        ) by {
            if k > 0 {
                assert(int_text(i)[k] == decimal(n)[k - 1]);
            }
        }
    } else {
        lemma_scan_decimal(Seq::empty(), n);
        assert(Seq::<char>::empty() + decimal(n) =~= decimal(n));
        assert(is_digit(decimal(n)[0]));
    }
}

/// A fractional literal is not empty and starts with a sign or a digit.
pub proof fn lemma_fraction_start(t: Seq<char>)
    requires
        is_fraction_literal(t),
    ensures
        t.len() > 0,
        t[0] != '"',
        is_number_char(t[0]),
{
    lemma_scan_chars(t);
    assert(is_number_char(t[0]));
}

/// What follows a number in the surrounding text ends it.
pub proof fn lemma_number_token(x: Seq<char>, y: Seq<char>)
    requires
        is_int_literal(x) || is_fraction_literal(x) || forall|k: int|
            0 <= k < x.len() ==> #[trigger] is_number_char(x[k]),
        y.len() == 0 || !is_number_char(y[0]),
    ensures
        number_len(x + y) == x.len(),
        (x + y).take(x.len() as int) == x,
{
    if is_int_literal(x) || is_fraction_literal(x) {
        lemma_scan_chars(x);
    }
    lemma_number_len(x, y);
    assert((x + y).take(x.len() as int) =~= x);
}

pub fn step_exec(s: NumberState, c: char) -> (r: NumberState)
    ensures
        r == step(s, c),
{
    let d = '0' <= c && c <= '9';
    let e = c == 'e' || c == 'E';
    match s {
        NumberState::Start => if c == '-' {
            NumberState::Minus
        } else if c == '0' {
            NumberState::Zero
        } else if d {
            NumberState::IntDigits
        } else {
            NumberState::Fail
        },
        NumberState::Minus => if c == '0' {
            NumberState::Zero
        } else if d {
            NumberState::IntDigits
        } else {
            NumberState::Fail
        },
        NumberState::Zero => if c == '.' {
            NumberState::Dot
        } else if e {
            NumberState::Exp
        } else {
            NumberState::Fail
        },
        NumberState::IntDigits => if d {
            NumberState::IntDigits
        } else if c == '.' {
            NumberState::Dot
        } else if e {
            NumberState::Exp
        } else {
            NumberState::Fail
        },
        NumberState::Dot => if d {
            NumberState::FracDigits
        } else {
            NumberState::Fail
        },
        NumberState::FracDigits => if d {
            NumberState::FracDigits
        } else if e {
            NumberState::Exp
        } else {
            NumberState::Fail
        },
        NumberState::Exp => if c == '+' || c == '-' {
            NumberState::ExpSign
        } else if d {
            NumberState::ExpDigits
        } else {
            NumberState::Fail
        },
        NumberState::ExpSign => if d {
            NumberState::ExpDigits
        } else {
            NumberState::Fail
        },
        NumberState::ExpDigits => if d {
            NumberState::ExpDigits
        } else {
            NumberState::Fail
        },
        NumberState::Fail => NumberState::Fail,
    }
}

/// The scan state after the characters of `t` from `from` to `to`.
pub fn scan_range(t: &str, from: usize, to: usize) -> (r: NumberState)
    requires
        from <= to <= t@.len(),
    ensures
        r == scan(t@.subrange(from as int, to as int)),
{
    let mut s = NumberState::Start;
    let mut i: usize = from;
    assert(t@.subrange(from as int, from as int) =~= Seq::<char>::empty());
    while i < to
        invariant
            from <= i <= to <= t@.len(),
            s == scan(t@.subrange(from as int, i as int)),
        decreases to - i,
    {
        let c = t.get_char(i);
        assert(t@.subrange(from as int, i + 1).drop_last() =~= t@.subrange(from as int, i as int));
        s = step_exec(s, c);
        i = i + 1;
    }
    s
}

/// `true` when `c` can occur in a JSON number.
pub fn number_char(c: char) -> (r: bool)
    ensures
        r == is_number_char(c),
{
    ('0' <= c && c <= '9') || c == '-' || c == '+' || c == '.' || c == 'e' || c == 'E'
}

pub proof fn lemma_digits_prefix(t: Seq<char>, k: int)
    requires
        0 <= k <= t.len(),
        forall|j: int| 0 <= j < t.len() ==> is_digit(#[trigger] t[j]),
    ensures
        0 <= digits_value(t.take(k)) <= digits_value(t),
    decreases t.len(),
{
    if k < t.len() {
        lemma_digits_prefix(t.drop_last(), k);
        assert(t.drop_last().take(k) =~= t.take(k));
        assert(t.take(k) == t.drop_last().take(k));
    } else {
        assert(t.take(k) =~= t);
        if t.len() > 0 {
            lemma_digits_prefix(t.drop_last(), k - 1);
            assert(t.drop_last().take(k - 1) =~= t.drop_last());
        }
    }
}

proof fn lemma_scan_start(t: Seq<char>)
    requires
        scan(t) == NumberState::Start,
    ensures
        t.len() == 0,
{
}

proof fn lemma_scan_minus(t: Seq<char>)
    requires
        scan(t) == NumberState::Minus,
    ensures
        t =~= seq!['-'],
{
    let p = t.drop_last();
    assert(scan(p) == NumberState::Start);
    lemma_scan_start(p);
}

/// An integer literal is an optional minus sign followed by at least one digit.
proof fn lemma_int_literal_shape(t: Seq<char>)
    requires
        is_int_literal(t),
    ensures
        t.len() >= 1,
        t[0] == '-' ==> t.len() >= 2,
        forall|j: int| 0 <= j < t.len() && (j > 0 || t[0] != '-') ==> is_digit(#[trigger] t[j]),
    decreases t.len(),
{
    let p = t.drop_last();
    let c = t.last();
    assert(is_digit(c));
    if scan(p) == NumberState::Start {
        lemma_scan_start(p);
    } else if scan(p) == NumberState::Minus {
        lemma_scan_minus(p);
    } else {
        lemma_int_literal_shape(p);
        assert forall|j: int| 0 <= j < t.len() && (j > 0 || t[0] != '-') implies is_digit(
            #[trigger] t[j],
        ) by {
            if j < t.len() - 1 {
                assert(t[j] == p[j]);
            }
        }
    }
}

/// Reads an integer literal between `from` and `to`; nothing when its value
/// does not fit in an `i64`.
pub fn read_int(t: &str, from: usize, to: usize) -> (r: Option<i64>)
    requires
        from <= to <= t@.len(),
        is_int_literal(t@.subrange(from as int, to as int)),
    ensures
        ({
            let v = int_literal_value(t@.subrange(from as int, to as int));
            if i64::MIN <= v <= i64::MAX {
                r == Some(v as i64)
            } else {
                r is None
            }
        }),
{
    let ghost tok = t@.subrange(from as int, to as int);
    proof {
        lemma_int_literal_shape(tok);
    }
    let neg = t.get_char(from) == '-';
    let start: usize = if neg {
        from + 1
    } else {
        from
    };
    let ghost digits = if neg {
        tok.drop_first()
    } else {
        tok
    };
    assert(digits =~= t@.subrange(start as int, to as int));
    assert(neg ==> tok.len() >= 1 && tok.drop_first() == digits);
    assert(tok[0] == t@[from as int]);
    assert forall|j: int| 0 <= j < digits.len() implies is_digit(#[trigger] digits[j]) by {
        if neg {
            assert(digits[j] == tok[j + 1]);
        } else {
            assert(digits[j] == tok[j]);
        }
    }
    let limit: u64 = 9223372036854775808;
    let mut acc: u64 = 0;
    let mut i: usize = start;
    assert(digits.take(0) =~= Seq::<char>::empty());
    while i < to
        invariant
            start <= i <= to <= t@.len(),
            digits == t@.subrange(start as int, to as int),
            forall|j: int| 0 <= j < digits.len() ==> is_digit(#[trigger] digits[j]),
            acc == digits_value(digits.take(i - start)),
            acc <= limit,
            limit == 9223372036854775808u64,
            tok == t@.subrange(from as int, to as int),
            neg ==> tok.len() >= 1 && tok.drop_first() == digits,
            !neg ==> tok == digits,
            tok.len() >= 1,
            neg == (tok[0] == '-'),
        decreases to - i,
    {
        let c = t.get_char(i);
        assert(c == digits[i - start]);
        assert(is_digit(c));
        let d: u64 = (c as u32 - 48) as u64;
        assert(d <= 9);
        assert(digits.take(i - start + 1).drop_last() =~= digits.take(i - start));
        assert(digits.take(i - start + 1).last() == c);
        assert(digits_value(digits.take(i - start + 1)) == acc * 10 + d);
        if acc > (limit - d) / 10 {
            proof {
                lemma_digits_prefix(digits, i - start + 1);
                assert(acc * 10 + d > limit) by (nonlinear_arith)
                    requires
                        acc > (limit - d) / 10,
                        d <= 9,
                        limit == 9223372036854775808u64,
                ;
                assert(digits_value(digits) > limit);
            }
            return None;
        }
        acc = acc * 10 + d;
        i = i + 1;
    }
    assert(digits.take(i - start) =~= digits);
    if neg {
        if acc == limit {
            Some(i64::MIN)
        } else {
            Some(-(acc as i64))
        }
    } else {
        if acc > 9223372036854775807 {
            None
        } else {
            Some(acc as i64)
        }
    }
}

} // verus!
