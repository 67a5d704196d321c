//! Decimal numbers: how device output writes them and how reports do.

use vstd::prelude::*;
use vstd::slice::slice_subrange;

use crate::text;
use crate::text::{string_of, CharClass};

verus! {

/// Whether a text consists of ASCII digits alone.
pub open spec fn all_digits(s: Seq<char>) -> bool {
    forall|i: int| 0 <= i < s.len() ==> text::is_digit(#[trigger] s[i])
}

/// The value of a digit.
pub open spec fn digit_value(c: char) -> nat {
    (c as u32 - '0' as u32) as nat
}

/// The number that a row of digits writes in base ten.
pub open spec fn digits_value(s: Seq<char>) -> nat
    decreases s.len(),
{
    if s.len() == 0 {
        0
    } else {
        digits_value(s.drop_last()) * 10 + digit_value(s.last())
    }
}

/// The number that a non-empty row of digits writes, if it does not exceed the bound.
pub open spec fn parse_digits(s: Seq<char>, max: nat) -> Option<nat> {
    if s.len() > 0 && all_digits(s) && digits_value(s) <= max {
        Some(digits_value(s))
    } else {
        None
    }
}

/// Reads an unsigned number: digits, which a plus sign may precede.
pub open spec fn parse_unsigned(s: Seq<char>, max: nat) -> Option<nat> {
    if s.len() > 0 && s[0] == '+' {
        parse_digits(s.skip(1), max)
    } else {
        parse_digits(s, max)
    }
}

/// Reads a signed number from the range of `-max - 1` to `max`: digits, which a plus or a minus
/// sign may precede.
pub open spec fn parse_signed(s: Seq<char>, max: nat) -> Option<int> {
    if s.len() > 0 && s[0] == '-' {
        match parse_digits(s.skip(1), max + 1) {
            Some(n) => Some(-(n as int)),
            None => None,
        }
    } else {
        match parse_unsigned(s, max) {
            Some(n) => Some(n as int),
            None => None,
        }
    }
}

/// Reads a signed 64-bit number.
pub open spec fn parse_i64(s: Seq<char>) -> Option<i64> {
    match parse_signed(s, i64::MAX as nat) {
        Some(n) => Some(n as i64),
        None => None,
    }
}

/// Reads a signed 32-bit number.
pub open spec fn parse_i32(s: Seq<char>) -> Option<i32> {
    match parse_signed(s, i32::MAX as nat) {
        Some(n) => Some(n as i32),
        None => None,
    }
}

/// The digit that writes a number below ten.
pub open spec fn digit_char(n: nat) -> char {
    ('0' as u32 + n) as char
}

/// A natural number written in base ten, without leading zeros.
pub open spec fn decimal(n: nat) -> Seq<char>
    decreases n,
{
    if n < 10 {
        seq![digit_char(n)]
    } else {
        decimal(n / 10).push(digit_char(n % 10))
    }
}

/// An integer written in base ten, with a minus sign before a negative one.
pub open spec fn decimal_int(n: int) -> Seq<char> {
    if n < 0 {
        seq!['-'] + decimal((-n) as nat)
    } else {
        decimal(n as nat)
    }
}

/// The first digits of a number write no more than all of them.
proof fn lemma_digits_value_monotone(s: Seq<char>, k: int)
    requires
        0 <= k <= s.len(),
    ensures
        digits_value(s.take(k)) <= digits_value(s),
    decreases s.len(),
{
    if k == s.len() {
        assert(s.take(k) =~= s);
    } else {
        lemma_digits_value_monotone(s.drop_last(), k);
        assert(s.drop_last().take(k) =~= s.take(k));
    }
}

/// What `decimal` writes is a row of digits whose value is the number.
pub proof fn lemma_decimal(n: nat)
    ensures
        decimal(n).len() > 0,
        all_digits(decimal(n)),
        digits_value(decimal(n)) == n,
    decreases n,
{
    if n < 10 {
        assert(decimal(n).drop_last() =~= Seq::empty());
        assert(digits_value(Seq::<char>::empty()) == 0);
    } else {
        lemma_decimal(n / 10);
        let d = decimal(n);
        assert(d.drop_last() =~= decimal(n / 10));
        assert forall|i: int| 0 <= i < d.len() implies text::is_digit(#[trigger] d[i]) by {
            if i < d.len() - 1 {
                assert(d[i] == decimal(n / 10)[i]);
            }
        }
    }
}

/// Reading an unsigned number gives back what was written.
pub proof fn law_parse_decimal(n: nat, max: nat)
    requires
        n <= max,
    ensures
        parse_unsigned(decimal(n), max) == Some(n),
{
    lemma_decimal(n);
    assert(text::is_digit(decimal(n)[0]));
}

/// Reading a signed number gives back what was written.
pub proof fn law_parse_decimal_int(n: int, max: nat)
    requires
        -max - 1 <= n <= max,
    ensures
        parse_signed(decimal_int(n), max) == Some(n),
{
    if n < 0 {
        lemma_decimal((-n) as nat);
        assert(decimal_int(n).skip(1) =~= decimal((-n) as nat));
    } else {
        lemma_decimal(n as nat);
        assert(text::is_digit(decimal(n as nat)[0]));
    }
}

/// Numbers beyond the range are refused, and so is what is not a number: an empty text, and one
/// with a character that is not a digit, but for a sign before the digits.
pub proof fn law_refused_numbers(n: nat, max: nat, before: Seq<char>, c: char, behind: Seq<char>)
    ensures
        n > max ==> parse_unsigned(decimal(n), max) is None,
        n <= max ==> parse_unsigned(seq!['+'] + decimal(n), max) == Some(n),
        n > max ==> parse_signed(decimal_int(n as int), max) is None,
        n > max + 1 ==> parse_signed(decimal_int(-n), max) is None,
        parse_unsigned(Seq::empty(), max) is None,
        parse_signed(Seq::empty(), max) is None,
        !text::is_digit(c) && (before.len() > 0 || c != '+') ==> parse_unsigned(
            before + seq![c] + behind,
            max,
        ) is None,
        !text::is_digit(c) && (before.len() > 0 || c != '+' && c != '-') ==> parse_signed(
            before + seq![c] + behind,
            max,
        ) is None,
{
    lemma_decimal(n);
    let d = decimal(n);
    assert(text::is_digit(d[0]));
    assert((seq!['+'] + d).skip(1) =~= d);
    if n > 0 {
        assert(decimal_int(-n).skip(1) =~= d);
    }
    let s = before + seq![c] + behind;
    let at = before.len() as int;
    assert(s[at] == c);
    if !text::is_digit(c) {
        assert(!all_digits(s));
        if at > 0 {
            assert(s.skip(1)[at - 1] == c);
            assert(!all_digits(s.skip(1)));
        }
    }
}

/// Different integers are written differently.
pub proof fn law_decimal_int_injective(a: int, b: int)
    requires
        decimal_int(a) == decimal_int(b),
    ensures
        a == b,
{
    let max: nat = if a < 0 {
        if b < 0 {
            (-a - b) as nat
        } else {
            (-a + b) as nat
        }
    } else if b < 0 {
        (a - b) as nat
    } else {
        (a + b) as nat
    };
    law_parse_decimal_int(a, max);
    law_parse_decimal_int(b, max);
}

/// Reads a non-empty row of digits.
pub fn read_digits(s: &[char], max: u64) -> (r: Option<u64>)
    ensures
        match r {
            Some(n) => parse_digits(s@, max as nat) == Some(n as nat),
            None => parse_digits(s@, max as nat) is None,
        },
{
    if s.len() == 0 {
        return None;
    }
    let mut value: u64 = 0;
    let mut i: usize = 0;
    assert(s@.take(0) =~= Seq::empty());
    while i < s.len()
        invariant
            i <= s@.len(),
            forall|j: int| 0 <= j < i ==> text::is_digit(#[trigger] s@[j]),
            value == digits_value(s@.take(i as int)),
            value <= max,
        decreases s@.len() - i,
    {
        let c: char = s[i];
        if !CharClass::Digit.test(c) {
            assert(!text::is_digit(s@[i as int]));
            return None;
        }
        let d: u64 = c as u64 - '0' as u64;
        proof {
            lemma_digits_value_monotone(s@, i + 1);
            assert(s@.take(i + 1).drop_last() =~= s@.take(i as int));
        }
        if value > max / 10 || d > max - value * 10 {
            assert(digits_value(s@.take(i + 1)) > max);
            return None;
        }
        value = value * 10 + d;
        i = i + 1;
    }
    assert(s@.take(i as int) =~= s@);
    Some(value)
}

/// Reads an unsigned number that does not exceed the bound.
pub fn read_unsigned(s: &[char], max: u64) -> (r: Option<u64>)
    ensures
        match r {
            Some(n) => parse_unsigned(s@, max as nat) == Some(n as nat),
            None => parse_unsigned(s@, max as nat) is None,
        },
{
    if s.len() > 0 && s[0] == '+' {
        let rest = slice_subrange(s, 1, s.len());
        assert(rest@ =~= s@.skip(1));
        read_digits(rest, max)
    } else {
        read_digits(s, max)
    }
}

/// Reads a signed number from the range of `-max - 1` to `max`.
pub fn read_signed(s: &[char], max: i64) -> (r: Option<i64>)
    requires
        max >= 0,
    ensures
        match r {
            Some(n) => parse_signed(s@, max as nat) == Some(n as int),
            None => parse_signed(s@, max as nat) is None,
        },
{
    if s.len() > 0 && s[0] == '-' {
        let rest = slice_subrange(s, 1, s.len());
        assert(rest@ =~= s@.skip(1));
        match read_digits(rest, max as u64 + 1) {
            Some(n) => {
                if n == 0 {
                    Some(0)
                } else {
                    let m: i64 = (n - 1) as i64;
                    Some(-m - 1)
                }
            },
            None => None,
        }
    } else {
        match read_unsigned(s, max as u64) {
            Some(n) => Some(n as i64),
            None => None,
        }
    }
}

/// Reads a signed 64-bit number.
pub fn read_i64(s: &[char]) -> (r: Option<i64>)
    ensures
        r == parse_i64(s@),
{
    read_signed(s, i64::MAX)
}

/// Reads a signed 32-bit number.
pub fn read_i32(s: &[char]) -> (r: Option<i32>)
    ensures
        r == parse_i32(s@),
{
    match read_signed(s, i32::MAX as i64) {
        Some(n) => Some(n as i32),
        None => None,
    }
}

/// The digits of a number.
fn decimal_chars(n: u128) -> (r: Vec<char>)
    ensures
        r@ == decimal(n as nat),
    decreases n,
{
    let d: u8 = (n % 10) as u8;
    let c: char = (48 + d) as char;
    if n < 10 {
        let mut out: Vec<char> = Vec::new();
        out.push(c);
        assert(out@ =~= decimal(n as nat));
        out
    } else {
        let mut out = decimal_chars(n / 10);
        out.push(c);
        out
    }
}

/// Writes an unsigned number.
pub fn write_u128(n: u128) -> (r: String)
    ensures
        r@ == decimal(n as nat),
{
    let cs = decimal_chars(n);
    string_of(cs.as_slice())
}

/// Writes an unsigned number.
pub fn write_u64(n: u64) -> (r: String)
    ensures
        r@ == decimal(n as nat),
{
    write_u128(n as u128)
}

/// Writes a signed number.
pub fn write_i64(n: i64) -> (r: String)
    ensures
        r@ == decimal_int(n as int),
{
    if n < 0 {
        let m: u64 = (-(n + 1)) as u64 + 1;
        let cs = decimal_chars(m as u128);
        let mut out = String::new();
        out.push('-');
        let digits = string_of(cs.as_slice());
        out.append(digits.as_str());
        assert(out@ =~= decimal_int(n as int));
        out
    } else {
        write_u64(n as u64)
    }
}

} // verus!
