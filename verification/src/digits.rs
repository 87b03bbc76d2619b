//! Decimal digits: spec-level decimal representations of naturals, and a
//! verified parser for the decimal integers carried in response headers.

use vstd::prelude::*;

verus! {

/// A decimal digit character.
pub open spec fn is_digit_char(c: char) -> bool {
    48 <= c as u32 <= 57
}

/// Numeric value of a digit character.
pub open spec fn digit_val(c: char) -> nat {
    (c as u32 - 48) as nat
}

/// The digit character for a value below ten.
pub open spec fn digit_char(d: nat) -> char
    recommends
        d < 10,
{
    if d == 0 {
        '0'
    } else if d == 1 {
        '1'
    } else if d == 2 {
        '2'
    } else if d == 3 {
        '3'
    } else if d == 4 {
        '4'
    } else if d == 5 {
        '5'
    } else if d == 6 {
        '6'
    } else if d == 7 {
        '7'
    } else if d == 8 {
        '8'
    } else {
        '9'
    }
}

/// Every character of the sequence is a decimal digit.
pub open spec fn all_digits(s: Seq<char>) -> bool {
    forall|i: int| 0 <= i < s.len() ==> is_digit_char(#[trigger] s[i])
}

/// Value of a digit sequence read most-significant first.
pub open spec fn digits_to_nat(s: Seq<char>) -> nat
    decreases s.len(),
{
    if s.len() == 0 {
        0
    } else {
        digits_to_nat(s.drop_last()) * 10 + digit_val(s.last())
    }
}

/// Canonical decimal representation of a natural number (no leading zeros).
pub open spec fn decimal_of(n: nat) -> Seq<char>
    decreases n,
{
    if n < 10 {
        seq![digit_char(n)]
    } else {
        decimal_of(n / 10).push(digit_char(n % 10))
    }
}

/// Digit characters and their values determine each other.
pub proof fn lemma_digit_char_val(c: char)
    requires
        is_digit_char(c),
    ensures
        digit_val(c) < 10,
        digit_char(digit_val(c)) == c,
{
    assert('0' as u32 == 48 && '1' as u32 == 49 && '2' as u32 == 50 && '3' as u32 == 51 && '4'
        as u32 == 52 && '5' as u32 == 53 && '6' as u32 == 54 && '7' as u32 == 55 && '8' as u32
        == 56 && '9' as u32 == 57);
    assert(c as u32 == 48 + digit_val(c));
}

/// Extending a digit prefix by one character multiplies its value by ten
/// and adds the new digit.
pub proof fn lemma_digits_take_succ(s: Seq<char>, i: int)
    requires
        0 <= i < s.len(),
    ensures
        digits_to_nat(s.take(i + 1)) == digits_to_nat(s.take(i)) * 10 + digit_val(s[i]),
{
    assert(s.take(i + 1).drop_last() =~= s.take(i));
    assert(s.take(i + 1).last() == s[i]);
}

/// The value of a digit sequence never drops when the sequence grows.
pub proof fn lemma_digits_prefix_le(s: Seq<char>, i: int, j: int)
    requires
        0 <= i <= j <= s.len(),
    ensures
        digits_to_nat(s.take(i)) <= digits_to_nat(s.take(j)),
    decreases j - i,
{
    if i < j {
        lemma_digits_prefix_le(s, i, j - 1);
        lemma_digits_take_succ(s, j - 1);
        assert(digits_to_nat(s.take(j - 1)) * 10 >= digits_to_nat(s.take(j - 1)));
    }
}

/// Parse a decimal header value, such as `x-ratelimit-remaining` or
/// `retry-after`: a non-empty run of digits whose value fits in an `i64`.
/// Anything else is `None`, and the caller falls back to its default.
pub fn parse_header_value(s: &str) -> (r: Option<i64>)
    ensures
        (s@.len() > 0 && all_digits(s@) && digits_to_nat(s@) <= i64::MAX) ==> r == Some(
            digits_to_nat(s@) as i64,
        ),
        !(s@.len() > 0 && all_digits(s@) && digits_to_nat(s@) <= i64::MAX) ==> r is None,
{
    let n = s.unicode_len();
    if n == 0 {
        return None;
    }
    let mut value: i64 = 0;
    let mut i: usize = 0;
    while i < n
        invariant
            0 <= i <= n,
            n == s@.len(),
            all_digits(s@.take(i as int)),
            value == digits_to_nat(s@.take(i as int)),
            0 <= value,
        decreases n - i,
    {
        let c = s.get_char(i);
        let u = c as u32;
        if u < 48 || u > 57 {
            assert(!is_digit_char(s@[i as int]));
            return None;
        }
        let d = (u - 48) as i64;
        assert(d == digit_val(s@[i as int]));
        if value > (i64::MAX - d) / 10 {
            proof {
                lemma_digits_take_succ(s@, i as int);
                assert(value * 10 + d > i64::MAX) by (nonlinear_arith)
                    requires
                        value > (i64::MAX - d) / 10,
                        0 <= d < 10,
                        0 <= value,
                ;
                lemma_digits_prefix_le(s@, i + 1, n as int);
                assert(s@.take(n as int) =~= s@);
            }
            return None;
        }
        proof {
            assert(value * 10 + d <= i64::MAX) by (nonlinear_arith)
                requires
                    value <= (i64::MAX - d) / 10,
                    0 <= d < 10,
                    0 <= value,
            ;
            lemma_digits_take_succ(s@, i as int);
        }
        value = value * 10 + d;
        i = i + 1;
    }
    proof {
        assert(s@.take(n as int) =~= s@);
    }
    Some(value)
}

/// The one-character string for a digit value.
fn digit_str(d: u32) -> (r: &'static str)
    requires
        d < 10,
    ensures
        r@ =~= seq![digit_char(d as nat)],
{
    proof {
        reveal_strlit("0");
        reveal_strlit("1");
        reveal_strlit("2");
        reveal_strlit("3");
        reveal_strlit("4");
        reveal_strlit("5");
        reveal_strlit("6");
        reveal_strlit("7");
        reveal_strlit("8");
        reveal_strlit("9");
    }
    match d {
        0 => "0",
        1 => "1",
        2 => "2",
        3 => "3",
        4 => "4",
        5 => "5",
        6 => "6",
        7 => "7",
        8 => "8",
        _ => "9",
    }
}

/// Render a natural number in decimal, without padding.
pub fn format_decimal(n: u32) -> (r: String)
    ensures
        r@ =~= decimal_of(n as nat),
    decreases n,
{
    if n < 10 {
        let mut s = String::new();
        s.append(digit_str(n));
        s
    } else {
        let mut s = format_decimal(n / 10);
        s.append(digit_str(n % 10));
        assert(s@ =~= decimal_of((n / 10) as nat).push(digit_char((n % 10) as nat)));
        s
    }
}

} // verus!
