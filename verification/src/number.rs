//! Decimal numbers as text.
//!
//! Ports and protocol versions arrive as text and leave as text again. This module says what the decimal text of a
//! number is, which texts are the text of a number, and that the one undoes the other.

use vstd::prelude::*;
use vstd::string::*;

verus! {

/// Whether the character is one of the ten decimal digits.
pub open spec fn is_digit(c: char) -> bool {
    '0' <= c && c <= '9'
}

/// The number that a decimal digit stands for.
pub open spec fn digit_value(c: char) -> nat {
    (c as int - '0' as int) as nat
}

/// Whether the text consists of decimal digits only.
pub open spec fn all_digits(s: Seq<char>) -> bool {
    forall|i: int| 0 <= i < s.len() ==> is_digit(#[trigger] s[i])
}

/// The number that a text of decimal digits stands for, the most significant digit first.
pub open spec fn digits_value(s: Seq<char>) -> nat
    decreases s.len(),
{
    if s.len() == 0 {
        0
    } else {
        10 * digits_value(s.drop_last()) + digit_value(s.last())
    }
}

/// The decimal digit of a number below ten.
pub open spec fn digit_char(d: nat) -> char {
    (('0' as int) + d) as char
}

/// The decimal text of a number, without leading zeros.
pub open spec fn decimal(n: nat) -> Seq<char>
    decreases n,
{
    if n < 10 {
        seq![digit_char(n)]
    } else {
        decimal(n / 10).push(digit_char(n % 10))
    }
}

/// The decimal text of a number, with a leading minus sign if the number is negative.
pub open spec fn signed_decimal(n: int) -> Seq<char> {
    if n < 0 {
        seq!['-'] + decimal((-n) as nat)
    } else {
        decimal(n as nat)
    }
}

/// The number that a text of at least one digit and nothing else stands for, if it is at most `max`.
pub open spec fn parse_digits(s: Seq<char>, max: nat) -> Option<nat> {
    if s.len() > 0 && all_digits(s) && digits_value(s) <= max {
        Some(digits_value(s))
    } else {
        None
    }
}

/// The number from 0 to `max` that an optional plus sign and at least one digit stand for.
pub open spec fn parse_unsigned(s: Seq<char>, max: nat) -> Option<nat> {
    if s.len() > 0 && s[0] == '+' {
        parse_digits(s.skip(1), max)
    } else {
        parse_digits(s, max)
    }
}

/// The number from `min` to `max` that an optional sign and at least one digit stand for.
pub open spec fn parse_signed(s: Seq<char>, min: int, max: int) -> Option<int>
    recommends
        min <= 0 <= max,
{
    if s.len() > 0 && s[0] == '-' {
        match parse_digits(s.skip(1), (-min) as nat) {
            Some(n) => Some(-(n as int)),
            None => None,
        }
    } else {
        match parse_unsigned(s, max as nat) {
            Some(n) => Some(n as int),
            None => None,
        }
    }
}

/// The text of a decimal digit.
fn digit_text(d: u64) -> (text: &'static str)
    requires
        d < 10,
    ensures
        text@ == seq![digit_char(d as nat)],
{
    proof {
        reveal_strlit("0");
        reveal_strlit("1");
        reveal_strlit("2");
        reveal_strlit("3");
        reveal_strlit("4");
        reveal_strlit("5");
        reveal_strlit("6");
        reveal_strlit("7");
        reveal_strlit("8");
        reveal_strlit("9");
    }
    match d {
        0 => "0",
        1 => "1",
        2 => "2",
        3 => "3",
        4 => "4",
        5 => "5",
        6 => "6",
        7 => "7",
        8 => "8",
        _ => "9",
    }
}

/// Returns the decimal text of the number.
pub fn to_decimal(n: u64) -> (text: String)
    ensures
        text@ == decimal(n as nat),
    decreases n,
{
    if n < 10 {
        digit_text(n).to_owned()
    } else {
        let mut text = to_decimal(n / 10);
        text.append(digit_text(n % 10));
        text
    }
}

/// Reads a text of digits as a number of at most `max`.
fn read_digits(text: &str, max: u64) -> (number: Option<u64>)
    ensures
        match number {
            Some(n) => parse_digits(text@, max as nat) == Some(n as nat),
            None => parse_digits(text@, max as nat) is None,
        },
{
    let mut value: u128 = 0;
    let ghost s = text@;
    for c in iter: text.chars()
        invariant
            s == text@,
            iter.seq() == s,
            0 <= iter.index() <= s.len(),
            all_digits(s.take(iter.index() as int)),
            value <= 10 * (max as int) + 9,
            value <= max ==> value == digits_value(s.take(iter.index() as int)),
            value > max ==> digits_value(s.take(iter.index() as int)) > max,
    {
        let ghost k = iter.index() as int;
        proof {
            assert(c == s[k]);
            assert(s.take(k + 1).drop_last() == s.take(k));
            assert(s.take(k + 1).last() == c);
        }
        if c < '0' || '9' < c {
            proof {
                assert(!is_digit(s[k]));
            }
            return None;
        }
        if value <= max as u128 {
            value = 10 * value + (c as u32 - '0' as u32) as u128;
        }
    }
    proof {
        assert(s.take(s.len() as int) == s);
    }
    if text.is_empty() || value > max as u128 {
        None
    } else {
        Some(value as u64)
    }
}

/// Reads a number from 0 to `max`, written as an optional plus sign followed by digits.
pub fn read_unsigned(text: &str, max: u64) -> (number: Option<u64>)
    ensures
        match number {
            Some(n) => parse_unsigned(text@, max as nat) == Some(n as nat),
            None => parse_unsigned(text@, max as nat) is None,
        },
{
    let length = text.unicode_len();
    if length > 0 && text.get_char(0) == '+' {
        read_digits(text.substring_char(1, length), max)
    } else {
        read_digits(text, max)
    }
}

/// Reads a number of the machine's signed word, written as an optional sign followed by digits.
pub fn read_isize(text: &str) -> (number: Option<isize>)
    ensures
        match number {
            Some(n) => parse_signed(text@, isize::MIN as int, isize::MAX as int) == Some(n as int),
            None => parse_signed(text@, isize::MIN as int, isize::MAX as int) is None,
        },
{
    let length = text.unicode_len();
    if length > 0 && text.get_char(0) == '-' {
        match read_digits(text.substring_char(1, length), isize::MAX as u64 + 1) {
            Some(n) => if n == isize::MAX as u64 + 1 {
                Some(isize::MIN)
            } else {
                Some(-(n as isize))
            },
            None => None,
        }
    } else {
        match read_unsigned(text, isize::MAX as u64) {
            Some(n) => Some(n as isize),
            None => None,
        }
    }
}

/// The decimal text of a number consists of digits and stands for the number.
pub proof fn lemma_decimal(n: nat)
    ensures
        decimal(n).len() > 0,
        all_digits(decimal(n)),
        digits_value(decimal(n)) == n,
    decreases n,
{
    let s = decimal(n);
    if n < 10 {
        assert(s.drop_last() == Seq::<char>::empty());
        assert(digits_value(s.drop_last()) == 0);
        assert(s.last() == digit_char(n));
    } else {
        lemma_decimal(n / 10);
        assert(s.drop_last() == decimal(n / 10));
        assert(s.last() == digit_char(n % 10));
    }
}

/// Reading the decimal text of a number gives the number back.
pub proof fn law_decimal_round_trip(n: nat, max: nat)
    requires
        n <= max,
    ensures
        parse_unsigned(decimal(n), max) == Some(n),
{
    lemma_decimal(n);
    assert(is_digit(decimal(n)[0]));
}

/// Reading the signed decimal text of a number gives the number back.
pub proof fn law_signed_decimal_round_trip(n: int, min: int, max: int)
    requires
        min <= n <= max,
        min <= 0 <= max,
    ensures
        parse_signed(signed_decimal(n), min, max) == Some(n),
{
    if n < 0 {
        lemma_decimal((-n) as nat);
        assert(signed_decimal(n).skip(1) == decimal((-n) as nat));
    } else {
        law_decimal_round_trip(n as nat, max as nat);
        lemma_decimal(n as nat);
        assert(is_digit(decimal(n as nat)[0]));
    }
}

/// A digit appended to the text of a number other than zero is the next digit of the text of the larger number, and a
/// number below ten is written as its digit.
pub proof fn law_decimal_grows_by_digits(n: nat, d: nat)
    requires
        d < 10,
    ensures
        decimal(d).len() == 1,
        decimal(d)[0] as int == 48 + d,
        n > 0 ==> decimal(10 * n + d) == decimal(n) + decimal(d),
        n > 0 ==> decimal(n)[0] != '0',
    decreases n,
{
    assert((10 * n + d) / 10 == n && (10 * n + d) % 10 == d);
    if n > 0 {
        assert(decimal(n).push(digit_char(d)) == decimal(n) + decimal(d));
        if n >= 10 {
            law_decimal_grows_by_digits(n / 10, n % 10);
            lemma_decimal(n / 10);
        }
    }
}

/// A text of that many zeros.
pub open spec fn zeros(count: nat) -> Seq<char> {
    Seq::new(count, |i: int| '0')
}

/// Whether a text is the decimal text of a number with that many zeros in front.
pub open spec fn is_padded(s: Seq<char>, count: nat, n: nat) -> bool {
    s == zeros(count) + decimal(n)
}

/// Whether a text writes a number: digits that may start with zeros.
pub open spec fn writes(s: Seq<char>, n: nat) -> bool {
    exists|count: nat| is_padded(s, count, n)
}

/// Zeros in front do not count.
proof fn lemma_padded_value(s: Seq<char>, count: nat, n: nat)
    requires
        is_padded(s, count, n),
    ensures
        s.len() > 0,
        all_digits(s),
        digits_value(s) == n,
    decreases n, count,
{
    lemma_decimal(n);
    let d = decimal(n);
    assert forall|i: int| 0 <= i < s.len() implies is_digit(#[trigger] s[i]) by {
        if i >= count {
            assert(s[i] == d[i - count]);
        }
    }
    assert(s.last() == d.last());
    if n >= 10 {
        assert(s.drop_last() == zeros(count) + decimal(n / 10));
        lemma_padded_value(s.drop_last(), count, n / 10);
    } else if count > 0 {
        assert(s.drop_last() == zeros((count - 1) as nat) + decimal(0));
        lemma_padded_value(s.drop_last(), (count - 1) as nat, 0);
    } else {
        assert(s == d);
    }
}

/// Digits are the decimal text of their value with some zeros in front.
proof fn lemma_digits_are_padded(s: Seq<char>)
    requires
        s.len() > 0,
        all_digits(s),
    ensures
        writes(s, digits_value(s)),
    decreases s.len(),
{
    let v = digits_value(s);
    let c = digit_value(s.last());
    assert(is_digit(s[s.len() - 1]));
    assert(digit_char(c) == s.last());
    if s.len() == 1 {
        assert(s.drop_last() == Seq::<char>::empty());
        assert(digits_value(s.drop_last()) == 0);
        assert(s == zeros(0) + decimal(v));
        assert(is_padded(s, 0, v));
    } else {
        let front = s.drop_last();
        assert forall|i: int| 0 <= i < front.len() implies is_digit(#[trigger] front[i]) by {
            assert(is_digit(s[i]));
        }
        lemma_digits_are_padded(front);
        let w = digits_value(front);
        let count = choose|count: nat| is_padded(front, count, w);
        assert(v / 10 == w && v % 10 == c);
        assert(s == front.push(s.last()));
        if w > 0 {
            assert(s == zeros(count) + decimal(v));
            assert(is_padded(s, count, v));
        } else {
            assert(s == zeros(count + 1) + decimal(v));
            assert(is_padded(s, count + 1, v));
        }
    }
}

/// Digits stand for the number that they write, if it is not too large, and nothing else stands for a number.
pub proof fn law_digits_are_read_iff_written(s: Seq<char>, max: nat)
    ensures
        match parse_digits(s, max) {
            Some(n) => n <= max && writes(s, n),
            None => forall|n: nat| n <= max ==> !writes(s, n),
        },
{
    if s.len() > 0 && all_digits(s) {
        lemma_digits_are_padded(s);
    }
    assert forall|n: nat| writes(s, n) implies s.len() > 0 && all_digits(s) && digits_value(s) == n by {
        let count = choose|count: nat| is_padded(s, count, n);
        lemma_padded_value(s, count, n);
    }
}

/// An unsigned number is read exactly from an optional plus sign and digits that write it, if it is not too large.
pub proof fn law_unsigned_is_read_iff_written(s: Seq<char>, max: nat)
    ensures
        match parse_unsigned(s, max) {
            Some(n) => n <= max && (writes(s, n) || s.len() > 0 && s[0] == '+' && writes(s.skip(1), n)),
            None => {
                &&& forall|n: nat| n <= max ==> !writes(s, n)
                &&& s.len() > 0 && s[0] == '+' ==> forall|n: nat| n <= max ==> !writes(s.skip(1), n)
            },
        },
{
    law_digits_are_read_iff_written(s, max);
    law_digits_are_read_iff_written(s.skip(1), max);
    assert forall|n: nat| writes(s, n) implies s.len() > 0 && s[0] != '+' by {
        let count = choose|count: nat| is_padded(s, count, n);
        lemma_padded_value(s, count, n);
        assert(is_digit(s[0]));
    }
}

/// A signed number is read exactly from an optional sign and digits that write it, if it is within the bounds.
pub proof fn law_signed_is_read_iff_written(s: Seq<char>, min: int, max: int)
    requires
        min <= 0 <= max,
    ensures
        match parse_signed(s, min, max) {
            Some(n) => {
                &&& min <= n <= max
                &&& {
                    ||| n >= 0 && writes(s, n as nat)
                    ||| n >= 0 && s.len() > 0 && s[0] == '+' && writes(s.skip(1), n as nat)
                    ||| n <= 0 && s.len() > 0 && s[0] == '-' && writes(s.skip(1), (-n) as nat)
                }
            },
            None => {
                &&& forall|n: nat| n <= max ==> !writes(s, n)
                &&& s.len() > 0 && s[0] == '+' ==> forall|n: nat| n <= max ==> !writes(s.skip(1), n)
                &&& s.len() > 0 && s[0] == '-' ==> forall|n: nat| n <= -min ==> !writes(s.skip(1), n)
            },
        },
{
    law_unsigned_is_read_iff_written(s, max as nat);
    law_digits_are_read_iff_written(s.skip(1), (-min) as nat);
    assert forall|n: nat| writes(s, n) implies s.len() > 0 && s[0] != '-' by {
        let count = choose|count: nat| is_padded(s, count, n);
        lemma_padded_value(s, count, n);
        assert(is_digit(s[0]));
    }
}

} // verus!
