//! Decimal numbers written as text and read back from text.

use vstd::prelude::*;
use vstd::string::*;
use crate::text::push_char;

verus! {

/// The character of the decimal digit `d` (`d < 10`).
pub open spec fn digit_char(d: nat) -> char {
    (48 + d) as char
}

/// Whether `c` is one of the ASCII digits `0`..`9`.
pub open spec fn is_digit(c: char) -> bool {
    48 <= (c as int) <= 57
}

/// The decimal text of `n`: its digits, most significant first, without
/// leading zeros (zero itself is `"0"`).
pub open spec fn decimal(n: nat) -> Seq<char>
    decreases n,
{
    if n < 10 {
        seq![digit_char(n)]
    } else {
        decimal(n / 10).push(digit_char(n % 10))
    }
}

/// The value of a run of decimal digits (zero for the empty run).
pub open spec fn digits_value(s: Seq<char>) -> nat
    decreases s.len(),
{
    if s.len() == 0 {
        0
    } else {
        digits_value(s.drop_last()) * 10 + ((s.last() as int) - 48) as nat
    }
}

/// Whether every character of `s` is a decimal digit.
pub open spec fn all_digits(s: Seq<char>) -> bool {
    forall|i: int| 0 <= i < s.len() ==> is_digit(#[trigger] s[i])
}

/// The digits of a number written as text: the text after one optional
/// leading `+`.
pub open spec fn unsigned_digits(s: Seq<char>) -> Seq<char> {
    if s.len() > 0 && s[0] == '+' {
        s.drop_first()
    } else {
        s
    }
}

/// The number that the text `s` denotes, as Rust reads an unsigned integer:
/// one optional `+`, then at least one decimal digit and nothing else.
/// `None` where `s` has any other form. No bound is applied here.
pub open spec fn parsed_number(s: Seq<char>) -> Option<nat> {
    let digits = unsigned_digits(s);
    if digits.len() > 0 && all_digits(digits) {
        Some(digits_value(digits))
    } else {
        None
    }
}

/// The value of the digit character `c`.
fn digit_value(c: char) -> (d: usize)
    requires
        is_digit(c),
    ensures
        d == (c as int) - 48,
        d < 10,
{
    (c as u32 - 48) as usize
}

/// The character of the digit `d`.
fn digit_character(d: usize) -> (c: char)
    requires
        d < 10,
    ensures
        c == digit_char(d as nat),
{
    ((d as u8) + 48) as char
}

/// Appends the decimal text of `n` to `s`.
pub fn push_decimal(s: &mut String, n: usize)
    ensures
        final(s)@ == old(s)@ + decimal(n as nat),
    decreases n,
{
    if n >= 10 {
        push_decimal(s, n / 10);
    }
    push_char(s, digit_character(n % 10));
    proof {
        if n < 10 {
            assert(decimal(n as nat) =~= seq![digit_char(n as nat)]);
        }
    }
}

/// The decimal text of `n`, as `n.to_string()` writes it.
pub fn decimal_string(n: usize) -> (s: String)
    ensures
        s@ == decimal(n as nat),
{
    let mut s = String::new();
    push_decimal(&mut s, n);
    assert(s@ =~= decimal(n as nat));
    s
}

/// Reads `text` as an unsigned number the way `text.parse::<usize>()` does:
/// `Some` exactly when the text is one optional `+` followed by one or more
/// decimal digits whose value fits in a `usize`.
pub fn parse_usize(text: &str) -> (r: Option<usize>)
    ensures
        r is Some <==> (parsed_number(text@) matches Some(n) && n <= usize::MAX),
        r matches Some(v) ==> parsed_number(text@) == Some(v as nat),
{
    let len = text.unicode_len();
    if len == 0 {
        return None;
    }
    let start: usize = if text.get_char(0) == '+' { 1 } else { 0 };
    if start == len {
        return None;
    }
    let ghost s = text@;
    let ghost digits = unsigned_digits(s);
    assert(digits =~= s.subrange(start as int, len as int));
    let mut value: usize = 0;
    let mut overflow = false;
    let mut i = start;
    while i < len
        invariant
            s == text@,
            len == s.len(),
            start <= i <= len,
            start < len,
            digits == s.subrange(start as int, len as int),
            digits == unsigned_digits(s),
            all_digits(s.subrange(start as int, i as int)),
            !overflow ==> value == digits_value(s.subrange(start as int, i as int)),
            overflow ==> digits_value(s.subrange(start as int, i as int)) > usize::MAX,
        decreases len - i,
    {
        let c = text.get_char(i);
        let code = c as u32;
        if !(code >= 48 && code <= 57) {
            assert(digits[i - start] == c);
            assert(!is_digit(c));
            assert(!all_digits(digits));
            assert(parsed_number(s) is None);
            return None;
        }
        let d = digit_value(c);
        let ghost prefix = s.subrange(start as int, i as int);
        let ghost next = s.subrange(start as int, i + 1);
        assert(next.drop_last() =~= prefix);
        assert(next.last() == c);
        assert(all_digits(next)) by {
            assert forall|k: int| 0 <= k < next.len() implies is_digit(#[trigger] next[k]) by {
                if k < prefix.len() {
                    assert(next[k] == prefix[k]);
                }
            }
        }
        if !overflow {
            if value > (usize::MAX - d) / 10 {
                overflow = true;
            } else {
                value = value * 10 + d;
            }
        }
        i = i + 1;
    }
    assert(s.subrange(start as int, len as int) == digits);
    if overflow {
        None
    } else {
        Some(value)
    }
}

/// Reading back the decimal text of a number gives the number.
pub proof fn lemma_decimal_parses(n: nat)
    ensures
        decimal(n).len() > 0,
        all_digits(decimal(n)),
        decimal(n)[0] != '+',
        digits_value(decimal(n)) == n,
        parsed_number(decimal(n)) == Some(n),
    decreases n,
{
    assert(digit_char(n % 10) as int == 48 + n % 10);
    if n < 10 {
        let d = decimal(n);
        assert(d =~= seq![digit_char(n)]);
        assert(d.drop_last() =~= Seq::<char>::empty());
        assert(digits_value(d.drop_last()) == 0);
        assert(d.last() == digit_char(n));
        assert(digits_value(d) == n);
    } else {
        lemma_decimal_parses(n / 10);
        let d = decimal(n);
        assert(d.drop_last() =~= decimal(n / 10));
        assert(d.last() == digit_char(n % 10));
        assert(digits_value(d) == digits_value(decimal(n / 10)) * 10 + n % 10);
        assert((n / 10) * 10 + n % 10 == n) by (nonlinear_arith);
        assert(d[0] == decimal(n / 10)[0]);
        assert forall|i: int| 0 <= i < d.len() implies is_digit(#[trigger] d[i]) by {
            if i < d.len() - 1 {
                assert(d[i] == decimal(n / 10)[i]);
            }
        }
    }
    let d = decimal(n);
    assert(unsigned_digits(d) == d);
}

} // verus!
