//! Decimal numbers: reading unsigned integers and writing integers out.

use crate::text::to_chars;
use vstd::arithmetic::power::{lemma_pow0, lemma_pow1, lemma_pow_adds, pow};
use vstd::prelude::*;
use vstd::string::*;

verus! {

/// Whether `c` is one of the characters `0` to `9`.
pub open spec fn is_digit(c: char) -> bool {
    '0' <= c && c <= '9'
}

/// The number that a digit stands for.
pub open spec fn digit_value(c: char) -> nat {
    (c as nat - '0' as nat) as nat
}

/// The digit that stands for `n`, which is below ten.
pub open spec fn digit_char(n: nat) -> char {
    ('0' as nat + n) as char
}

/// The number that a run of digits stands for; 0 for none.
pub open spec fn digits_value(s: Seq<char>) -> nat
    decreases s.len(),
{
    if s.len() == 0 {
        0
    } else {
        digits_value(s.drop_last()) * 10 + digit_value(s.last())
    }
}

/// Whether `s` is a run of one or more digits.
pub open spec fn all_digits(s: Seq<char>) -> bool {
    s.len() > 0 && forall|i: int| 0 <= i < s.len() ==> is_digit(#[trigger] s[i])
}

/// The number that `s` writes out: an optional `+`, then one or more digits and
/// nothing else.
pub open spec fn unsigned_value(s: Seq<char>) -> Option<nat> {
    let digits = if s.len() > 0 && s[0] == '+' {
        s.skip(1)
    } else {
        s
    };
    if all_digits(digits) {
        Some(digits_value(digits))
    } else {
        None
    }
}

/// The number that `s` writes out, where it is at most `max`.
pub open spec fn bounded_value(s: Seq<char>, max: nat) -> Option<nat> {
    match unsigned_value(s) {
        Some(v) => if v <= max {
            Some(v)
        } else {
            None
        },
        None => None,
    }
}

/// `n` in decimal, without leading zeros.
pub open spec fn decimal_text(n: nat) -> Seq<char>
    decreases n,
{
    if n < 10 {
        seq![digit_char(n)]
    } else {
        decimal_text(n / 10).push(digit_char(n % 10))
    }
}

/// `n` in decimal, with a `-` in front where it is negative.
pub open spec fn signed_text(n: int) -> Seq<char> {
    if n < 0 {
        seq!['-'] + decimal_text((-n) as nat)
    } else {
        decimal_text(n as nat)
    }
}

proof fn lemma_prefix_value(s: Seq<char>, i: int)
    requires
        0 <= i <= s.len(),
    ensures
        digits_value(s.take(i)) <= digits_value(s),
    decreases s.len(),
{
    if i < s.len() {
        lemma_prefix_value(s.drop_last(), i);
        assert(s.drop_last().take(i) == s.take(i));
    } else {
        assert(s.take(i) == s);
    }
}

/// What is written out is a run of digits, and it stands for the number.
pub proof fn law_decimal_text_digits(n: nat)
    ensures
        all_digits(decimal_text(n)),
        digits_value(decimal_text(n)) == n,
    decreases n,
{
    if n < 10 {
        assert(decimal_text(n).drop_last().len() == 0);
        assert(digits_value(decimal_text(n).drop_last()) == 0);
    } else {
        law_decimal_text_digits(n / 10);
        assert(decimal_text(n).drop_last() == decimal_text(n / 10));
    }
}

/// Reading what was written out gives the number back.
pub proof fn law_decimal_round_trip(n: nat)
    ensures
        unsigned_value(decimal_text(n)) == Some(n),
{
    law_decimal_text_digits(n);
    assert(is_digit(decimal_text(n)[0]));
}

/// What is written out has no leading zero, but for zero itself; so no two texts are
/// written out for one number.
pub proof fn law_no_leading_zero(n: nat)
    ensures
        decimal_text(n).len() > 0,
        decimal_text(n)[0] == '0' <==> n == 0,
        n == 0 ==> decimal_text(n).len() == 1,
    decreases n,
{
    if n < 10 {
        assert(digit_char(n) as int == '0' as int + n);
    } else {
        law_no_leading_zero(n / 10);
        assert(decimal_text(n)[0] == decimal_text(n / 10)[0]);
    }
}

/// A single digit stands for its distance from `0`.
pub proof fn law_single_digit(c: char)
    requires
        '0' <= c && c <= '9',
    ensures
        digits_value(seq![c]) == c as int - '0' as int,
        digits_value(Seq::empty()) == 0,
{
    assert(seq![c].drop_last() == Seq::<char>::empty());
    assert(digits_value(seq![c].drop_last()) == 0);
    assert(seq![c].last() == c);
}

/// Digits count by their place: those in front of `n` others count ten to the power of
/// `n` times as much.
pub proof fn law_digits_count_by_place(front: Seq<char>, back: Seq<char>)
    ensures
        digits_value(front + back) == digits_value(front) * pow(10, back.len()) + digits_value(back),
    decreases back.len(),
{
    if back.len() == 0 {
        lemma_pow0(10);
        assert(front + back == front);
        assert(digits_value(front) * 1 == digits_value(front)) by (nonlinear_arith);
    } else {
        let rest = back.drop_last();
        law_digits_count_by_place(front, rest);
        assert((front + back).drop_last() == front + rest);
        assert((front + back).last() == back.last());
        lemma_pow_adds(10, rest.len(), 1);
        lemma_pow1(10);
        let v = digits_value(front) as int;
        let p = pow(10, rest.len());
        let r = digits_value(rest) as int;
        assert((v * p + r) * 10 == v * (p * 10) + r * 10) by (nonlinear_arith);
    }
}

/// Whether every character of `s` is one of `0` to `9`, and there is at least one.
pub open spec fn is_number(s: Seq<char>) -> bool {
    s.len() > 0 && forall|i: int| 0 <= i < s.len() ==> '0' <= #[trigger] s[i] && s[i] <= '9'
}

/// A number is digits, with or without one `+` in front, and nothing else is one.
pub proof fn law_numbers_are_digits(s: Seq<char>)
    ensures
        is_number(s) ==> unsigned_value(s) == Some(digits_value(s)),
        is_number(s) ==> unsigned_value(seq!['+'] + s) == Some(digits_value(s)),
        !is_number(s) ==> unsigned_value(seq!['+'] + s) is None,
        !is_number(s) && !(s.len() > 0 && s[0] == '+') ==> unsigned_value(s) is None,
{
    assert((seq!['+'] + s).skip(1) == s);
    assert(is_number(s) == all_digits(s)) by {
        if all_digits(s) {
            assert forall|i: int| 0 <= i < s.len() implies '0' <= #[trigger] s[i] && s[i] <= '9' by {
                assert(is_digit(s[i]));
            }
        }
    }
    if is_number(s) {
        assert('0' <= s[0] && s[0] <= '9');
    }
}

/// A number is read where it is at most the bound, and not where it is greater.
pub proof fn law_bound_decides(s: Seq<char>, max: nat)
    ensures
        bounded_value(s, max) == (if unsigned_value(s) is Some && unsigned_value(s)->0 <= max {
            unsigned_value(s)
        } else {
            None
        }),
{
}

/// A negative number is written as a `-` and its absolute value, any other as it is.
pub proof fn law_sign_goes_in_front(n: int)
    ensures
        n >= 0 ==> unsigned_value(signed_text(n)) == Some(n as nat) && signed_text(n) == decimal_text(n as nat),
        n < 0 ==> signed_text(n) == seq!['-'] + decimal_text((0 - n) as nat),
        n < 0 ==> signed_text(n)[0] == '-' && unsigned_value(signed_text(n).skip(1)) == Some((0 - n) as nat),
{
    if n >= 0 {
        law_decimal_round_trip(n as nat);
    } else {
        law_decimal_round_trip((-n) as nat);
        assert(signed_text(n).skip(1) == decimal_text((-n) as nat));
    }
}

/// The unsigned integer that `s` writes out in decimal, where it is at most `max`.
fn parse_bounded(s: &str, max: u64) -> (res: Option<u64>)
    ensures
        match res {
            Some(v) => bounded_value(s@, max as nat) == Some(v as nat),
            None => bounded_value(s@, max as nat) is None,
        },
{
    let chars = to_chars(s);
    let start: usize = if chars.len() > 0 && chars[0] == '+' {
        1
    } else {
        0
    };
    let ghost digits = s@.skip(start as int);
    assert(s@.skip(0) == s@);
    if start == chars.len() {
        return None;
    }
    let mut value: u64 = 0;
    let mut i: usize = start;
    assert(digits.take(0).len() == 0);
    while i < chars.len()
        invariant
            chars@ == s@,
            start <= i <= chars@.len(),
            start < chars@.len(),
            digits == s@.skip(start as int),
            start == 1 <==> s@[0] == '+',
            start <= 1,
            start == 0 ==> digits == s@,
            value <= max,
            value == digits_value(digits.take(i - start)),
            forall|j: int| 0 <= j < i - start ==> is_digit(#[trigger] digits[j]),
        decreases chars@.len() - i,
    {
        let c = chars[i];
        assert(c == digits[i - start]);
        if c < '0' || c > '9' {
            assert(!is_digit(digits[i - start]));
            return None;
        }
        let digit: u64 = (c as u32 - '0' as u32) as u64;
        proof {
            let next = digits.take(i - start + 1);
            assert(next.drop_last() == digits.take(i - start));
            assert(digits_value(next) == value * 10 + digit);
            lemma_prefix_value(digits, i - start + 1);
        }
        let next: u64 = match value.checked_mul(10) {
            Some(tens) => match tens.checked_add(digit) {
                Some(sum) => sum,
                None => {
                    return None;
                },
            },
            None => {
                return None;
            },
        };
        if next > max {
            return None;
        }
        value = next;
        i = i + 1;
    }
    assert(digits.take(i - start) == digits);
    Some(value)
}

/// The `u16` that `s` writes out in decimal.
pub fn parse_u16(s: &str) -> (res: Option<u16>)
    ensures
        match res {
            Some(v) => bounded_value(s@, u16::MAX as nat) == Some(v as nat),
            None => bounded_value(s@, u16::MAX as nat) is None,
        },
{
    match parse_bounded(s, u16::MAX as u64) {
        Some(v) => Some(v as u16),
        None => None,
    }
}

/// The `u64` that `s` writes out in decimal.
pub fn parse_u64(s: &str) -> (res: Option<u64>)
    ensures
        match res {
            Some(v) => bounded_value(s@, u64::MAX as nat) == Some(v as nat),
            None => bounded_value(s@, u64::MAX as nat) is None,
        },
{
    parse_bounded(s, u64::MAX)
}

/// The digit for `n` as a text of one character.
fn digit_text(n: u64) -> (res: &'static str)
    requires
        n < 10,
    ensures
        res@ == seq![digit_char(n as nat)],
{
    proof {
        reveal_strlit("0");
        reveal_strlit("1");
        reveal_strlit("2");
        reveal_strlit("3");
        reveal_strlit("4");
        reveal_strlit("5");
        reveal_strlit("6");
        reveal_strlit("7");
        reveal_strlit("8");
        reveal_strlit("9");
    }
    match n {
        0 => "0",
        1 => "1",
        2 => "2",
        3 => "3",
        4 => "4",
        5 => "5",
        6 => "6",
        7 => "7",
        8 => "8",
        _ => "9",
    }
}

/// `n` in decimal.
pub fn decimal(n: u64) -> (res: String)
    ensures
        res@ == decimal_text(n as nat),
    decreases n,
{
    if n < 10 {
        digit_text(n).to_string()
    } else {
        let mut out = decimal(n / 10);
        out.append(digit_text(n % 10));
        out
    }
}

/// `n` in decimal, with a `-` in front where it is negative.
pub fn signed_decimal(n: i32) -> (res: String)
    ensures
        res@ == signed_text(n as int),
{
    let wide: i64 = n as i64;
    if wide < 0 {
        proof {
            reveal_strlit("-");
        }
        let mut out = "-".to_string();
        out.append(decimal((-wide) as u64).as_str());
        assert("-"@ == seq!['-']);
        out
    } else {
        decimal(wide as u64)
    }
}

} // verus!
