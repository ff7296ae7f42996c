//! Decimal numerals.
use vstd::prelude::*;

use crate::text::chars::chars_of;

verus! {

/// The decimal digit for `d`, which is below ten.
pub open spec fn digit_char(d: nat) -> char {
    (d + 48) as u8 as char
}

/// The decimal numeral of `n`, without leading zeros.
pub open spec fn decimal(n: nat) -> Seq<char>
    decreases n,
{
    if n < 10 {
        seq![digit_char(n)]
    } else {
        decimal(n / 10).push(digit_char(n % 10))
    }
}

/// The decimal numeral of `n`, without leading zeros.
pub fn decimal_of(n: u128) -> (s: String)
    ensures
        s@ == decimal(n as nat),
    decreases n,
{
    if n < 10 {
        let mut s: String = String::new();
        s.push((n as u8 + 48) as char);
        assert(s@ =~= seq![digit_char(n as nat)]);
        s
    } else {
        let mut s: String = decimal_of(n / 10);
        let d: u128 = n % 10;
        s.push((d as u8 + 48) as char);
        s
    }
}

/// The decimal numeral of `n`, with a minus sign in front of a negative number.
pub open spec fn signed_decimal(n: int) -> Seq<char> {
    if n < 0 {
        seq!['-'] + decimal((-n) as nat)
    } else {
        decimal(n as nat)
    }
}

/// The decimal numeral of `n`, with a minus sign in front of a negative number.
pub fn signed_decimal_of(n: i64) -> (s: String)
    ensures
        s@ == signed_decimal(n as int),
{
    if n < 0 {
        let mut s: String = String::new();
        s.push('-');
        assert(s@ =~= seq!['-']);
        s.append(decimal_of((-(n as i128)) as u128).as_str());
        s
    } else {
        decimal_of(n as u128)
    }
}

/// Whether `c` is one of `0` to `9`.
pub open spec fn is_digit(c: char) -> bool {
    '0' <= c <= '9'
}

/// Whether `s` is a non-empty run of decimal digits.
pub open spec fn is_numeral(s: Seq<char>) -> bool {
    s.len() > 0 && forall|i: int| 0 <= i < s.len() ==> is_digit(s[i])
}

/// The number that a run of decimal digits stands for.
pub open spec fn numeral_value(s: Seq<char>) -> nat
    decreases s.len(),
{
    if s.len() == 0 {
        0
    } else {
        numeral_value(s.drop_last()) * 10 + (s.last() as nat - 48) as nat
    }
}

/// `s` without one leading plus sign, if it has one.
pub open spec fn unsigned_digits(s: Seq<char>) -> Seq<char> {
    if s.len() > 0 && s[0] == '+' {
        s.skip(1)
    } else {
        s
    }
}

/// The number that `s` reads as: decimal digits, with or without a plus sign in front, and
/// no more than `max`.
pub open spec fn parsed(s: Seq<char>, max: nat) -> Option<nat> {
    let d = unsigned_digits(s);
    if is_numeral(d) && numeral_value(d) <= max {
        Some(numeral_value(d))
    } else {
        None
    }
}

/// A longer run of digits stands for no smaller number.
pub proof fn lemma_numeral_value_grows(s: Seq<char>, k: int)
    requires
        0 <= k <= s.len(),
        forall|i: int| 0 <= i < s.len() ==> is_digit(s[i]),
    ensures
        numeral_value(s.take(k)) <= numeral_value(s),
    decreases s.len() - k,
{
    if k < s.len() {
        lemma_numeral_value_grows(s, k + 1);
        assert(s.take(k + 1).drop_last() =~= s.take(k));
        let a = numeral_value(s.take(k));
        let d = (s.take(k + 1).last() as nat - 48) as nat;
        assert(numeral_value(s.take(k + 1)) == a * 10 + d);
    } else {
        assert(s.take(k) =~= s);
    }
}

/// The number that the decimal digits of `v` from `from` on stand for.
fn value_from(v: &[char], from: usize, max: u64) -> (r: Option<u64>)
    requires
        from <= v@.len(),
    ensures
        ({
            let d = v@.skip(from as int);
            match r {
                Some(n) => is_numeral(d) && n == numeral_value(d) && n <= max,
                None => !(is_numeral(d) && numeral_value(d) <= max),
            }
        }),
{
    let ghost d = v@.skip(from as int);
    if from == v.len() {
        return None;
    }
    let mut n: u64 = 0;
    assert(d.take(0) =~= Seq::empty());
    for i in from..v.len()
        invariant
            from <= v@.len(),
            d == v@.skip(from as int),
            n <= max,
            n == numeral_value(d.take(i - from)),
            forall|k: int| 0 <= k < i - from ==> is_digit(d[k]),
    {
        let c: char = v[i];
        assert(d[i - from] == c);
        if !('0' <= c && c <= '9') {
            return None;
        }
        let x: u64 = c as u64 - 48;
        assert(d.take(i - from + 1).drop_last() =~= d.take(i - from));
        assert(numeral_value(d.take(i - from + 1)) == n * 10 + x);
        if n > (u64::MAX - x) / 10 || n * 10 + x > max {
            proof {
                if is_numeral(d) {
                    lemma_numeral_value_grows(d, i - from + 1);
                    if n > (u64::MAX - x) / 10 {
                        assert(n * 10 + x > u64::MAX);
                    }
                }
            }
            return None;
        }
        n = n * 10 + x;
    }
    assert(d.take(d.len() as int) =~= d);
    Some(n)
}

/// Reads a run of decimal digits as a number of at most `max`.
pub fn parse_digits(s: &str, max: u64) -> (r: Option<u64>)
    ensures
        match r {
            Some(n) => is_numeral(s@) && n == numeral_value(s@) && n <= max,
            None => !(is_numeral(s@) && numeral_value(s@) <= max),
        },
{
    let v: Vec<char> = chars_of(s);
    assert(v@.skip(0) =~= v@);
    value_from(v.as_slice(), 0, max)
}

/// Reads `s` as an unsigned number of at most `max`: decimal digits, with or without a plus
/// sign in front.
pub fn parse_unsigned(s: &str, max: u64) -> (r: Option<u64>)
    ensures
        match r {
            Some(n) => parsed(s@, max as nat) == Some(n as nat),
            None => parsed(s@, max as nat) is None,
        },
{
    let v: Vec<char> = chars_of(s);
    if v.len() > 0 && v[0] == '+' {
        value_from(v.as_slice(), 1, max)
    } else {
        assert(v@.skip(0) =~= v@);
        value_from(v.as_slice(), 0, max)
    }
}

/// The integer that `s` reads as: decimal digits, with or without a sign in front, and between
/// `min` and `max`.
pub open spec fn parsed_signed(s: Seq<char>, min: int, max: int) -> Option<int> {
    if s.len() > 0 && s[0] == '-' {
        let d = s.skip(1);
        if is_numeral(d) && -numeral_value(d) >= min {
            Some(-(numeral_value(d) as int))
        } else {
            None
        }
    } else {
        match parsed(s, max as nat) {
            Some(n) => Some(n as int),
            None => None,
        }
    }
}

/// Reads `s` as an integer: decimal digits, with or without a sign in front.
pub fn parse_signed(s: &str) -> (r: Option<i32>)
    ensures
        match r {
            Some(n) => parsed_signed(s@, i32::MIN as int, i32::MAX as int) == Some(n as int),
            None => parsed_signed(s@, i32::MIN as int, i32::MAX as int) is None,
        },
{
    let v: Vec<char> = chars_of(s);
    if v.len() > 0 && v[0] == '-' {
        match value_from(v.as_slice(), 1, 0x8000_0000) {
            Some(n) => Some((-(n as i64)) as i32),
            None => None,
        }
    } else {
        match parse_unsigned(s, i32::MAX as u64) {
            Some(n) => Some(n as i32),
            None => None,
        }
    }
}

// Laws.

/// A numeral stands for the number that it was written for, and starts with a zero only where
/// that is zero.
pub proof fn law_numeral_stands_for_its_number(n: nat)
    ensures
        is_numeral(decimal(n)),
        numeral_value(decimal(n)) == n,
        n > 0 ==> decimal(n)[0] != '0',
    decreases n,
{
    let s = decimal(n);
    if n < 10 {
        assert(s.drop_last() =~= Seq::empty());
        assert(s.last() == digit_char(n));
        assert(is_digit(s[0]));
        reveal_with_fuel(numeral_value, 2);
    } else {
        let before = decimal(n / 10);
        law_numeral_stands_for_its_number(n / 10);
        assert(s.drop_last() =~= before);
        assert(is_digit(digit_char(n % 10)));
        assert forall|i: int| 0 <= i < s.len() implies is_digit(s[i]) by {
            if i < before.len() {
                assert(s[i] == before[i]);
            }
        }
        assert(s[0] == before[0]);
    }
}

/// A numeral reads as the number that it was written for, where that is no more than allowed, and
/// so it does behind a plus sign.
pub proof fn law_numerals_read_back(n: nat, max: nat)
    ensures
        parsed(decimal(n), max) == (if n <= max {
            Some(n)
        } else {
            None
        }),
        parsed(seq!['+'] + decimal(n), max) == (if n <= max {
            Some(n)
        } else {
            None
        }),
{
    law_numeral_stands_for_its_number(n);
    let d = decimal(n);
    assert(is_digit(d[0]));
    assert((seq!['+'] + d).skip(1) =~= d);
}

/// What is no numeral, with or without a plus sign in front of it, reads as no number.
pub proof fn law_other_texts_are_no_numbers(s: Seq<char>, i: int, max: nat)
    requires
        0 <= i < s.len(),
        !is_digit(s[i]),
        i > 0 || s[0] != '+',
    ensures
        parsed(s, max) is None,
{
    let d = unsigned_digits(s);
    if s[0] == '+' {
        assert(d[i - 1] == s[i]);
    } else {
        assert(d[i] == s[i]);
    }
}

/// A number with its sign reads back, where it is between the bounds.
pub proof fn law_signed_numerals_read_back(n: int, min: int, max: int)
    requires
        min <= n <= max,
    ensures
        parsed_signed(signed_decimal(n), min, max) == Some(n),
{
    if n < 0 {
        let d = decimal((-n) as nat);
        law_numeral_stands_for_its_number((-n) as nat);
        assert((seq!['-'] + d).skip(1) =~= d);
    } else {
        law_numerals_read_back(n as nat, max as nat);
        law_numeral_stands_for_its_number(n as nat);
        assert(is_digit(decimal(n as nat)[0]));
    }
}

} // verus!
