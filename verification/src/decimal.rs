//! Numbers in decimal notation.
use crate::text::{chars_of, char_is_digit};
use vstd::prelude::*;
use vstd::string::*;

verus! {

use crate::text::is_digit;

/// The digit for a number below ten.
pub open spec fn digit_char(d: nat) -> char {
    (48 + d) as char
}

/// The number that a digit stands for.
pub open spec fn digit_value(c: char) -> nat {
    ((c as u32) - 48) as nat
}

/// A number in decimal notation, without leading zeros.
pub open spec fn decimal(n: nat) -> Seq<char>
    decreases n,
{
    if n < 10 {
        seq![digit_char(n)]
    } else {
        decimal(n / 10).push(digit_char(n % 10))
    }
}

/// An integer in decimal notation, with a minus sign where it is negative.
pub open spec fn signed_decimal(n: int) -> Seq<char> {
    if n < 0 {
        seq!['-'] + decimal((-n) as nat)
    } else {
        decimal(n as nat)
    }
}

/// Whether the text is made of digits alone, with at least one of them.
pub open spec fn is_digits(s: Seq<char>) -> bool {
    s.len() > 0 && forall|i: int| 0 <= i < s.len() ==> is_digit(#[trigger] s[i])
}

/// The number that a text of digits stands for.
pub open spec fn value(s: Seq<char>) -> nat
    decreases s.len(),
{
    if s.len() == 0 {
        0
    } else {
        10 * value(s.drop_last()) + digit_value(s.last())
    }
}

/// The text without one leading plus sign.
pub open spec fn strip_plus(s: Seq<char>) -> Seq<char> {
    if s.len() > 0 && s[0] == '+' {
        s.skip(1)
    } else {
        s
    }
}

/// The number that `str::parse` reads as an unsigned number no greater than `max`.
pub open spec fn unsigned(s: Seq<char>, max: nat) -> Option<nat> {
    let d = strip_plus(s);
    if is_digits(d) && value(d) <= max {
        Some(value(d))
    } else {
        None
    }
}

/// The number that `str::parse` reads as an integer from `min` to `max`.
pub open spec fn signed(s: Seq<char>, min: int, max: int) -> Option<int> {
    if s.len() > 0 && s[0] == '-' {
        let d = s.skip(1);
        if is_digits(d) && -value(d) >= min {
            Some(-value(d))
        } else {
            None
        }
    } else {
        let d = strip_plus(s);
        if is_digits(d) && value(d) <= max {
            Some(value(d) as int)
        } else {
            None
        }
    }
}

/// Decimal notation is read back as the number that was written.
pub proof fn lemma_decimal_round_trip(n: nat)
    ensures
        is_digits(decimal(n)),
        value(decimal(n)) == n,
    decreases n,
{
    if n < 10 {
        assert(decimal(n).drop_last() =~= Seq::<char>::empty());
        assert(value(decimal(n).drop_last()) == 0);
    } else {
        lemma_decimal_round_trip(n / 10);
        assert(decimal(n).drop_last() =~= decimal(n / 10));
    }
}

/// An unsigned number is read back from what was written.
pub proof fn law_unsigned_round_trip(n: nat, max: nat)
    requires
        n <= max,
    ensures
        unsigned(decimal(n), max) == Some(n),
{
    lemma_decimal_round_trip(n);
    assert(is_digit(decimal(n)[0]));
}

/// A signed number is read back from what was written.
pub proof fn law_signed_round_trip(n: int, min: int, max: int)
    requires
        min <= n <= max,
    ensures
        signed(signed_decimal(n), min, max) == Some(n),
{
    if n < 0 {
        lemma_decimal_round_trip((-n) as nat);
        assert(signed_decimal(n).skip(1) =~= decimal((-n) as nat));
    } else {
        lemma_decimal_round_trip(n as nat);
        assert(is_digit(decimal(n as nat)[0]));
    }
}

/// Appends the number in decimal notation.
pub fn push_decimal_wide(out: &mut String, n: u128)
    ensures
        final(out)@ == old(out)@ + decimal(n as nat),
    decreases n,
{
    if n >= 10 {
        push_decimal_wide(out, n / 10);
    }
    let d: u8 = (n % 10) as u8;
    out.push((48 + d) as char);
    assert(out@ =~= old(out)@ + decimal(n as nat));
}

/// Appends the number in decimal notation.
pub fn push_decimal(out: &mut String, n: u64)
    ensures
        final(out)@ == old(out)@ + decimal(n as nat),
{
    push_decimal_wide(out, n as u128);
}

/// The integer in decimal notation.
pub fn i64_text(n: i64) -> (r: String)
    ensures
        r@ == signed_decimal(n as int),
{
    let mut out = String::new();
    if n < 0 {
        out.push('-');
        let m: u64 = (-(n as i128)) as u64;
        push_decimal(&mut out, m);
        assert(out@ =~= signed_decimal(n as int));
    } else {
        push_decimal(&mut out, n as u64);
        assert(out@ =~= signed_decimal(n as int));
    }
    out
}

/// The value of the digits from position `from` on, where there is at least one, nothing
/// else follows, and the value is no greater than `max`.
fn parse_digits(cs: &Vec<char>, from: usize, max: u64) -> (r: Option<u64>)
    requires
        from <= cs@.len(),
    ensures
        ({
            let d = cs@.skip(from as int);
            r == (if is_digits(d) && value(d) <= max {
                Some(value(d) as u64)
            } else {
                None
            })
        }),
{
    let ghost d = cs@.skip(from as int);
    if from == cs.len() {
        return None;
    }
    let mut n: u64 = 0;
    let mut i: usize = from;
    while i < cs.len()
        invariant
            from <= i <= cs@.len(),
            d == cs@.skip(from as int),
            forall|j: int| 0 <= j < i - from ==> is_digit(#[trigger] d[j]),
            n == value(d.take(i - from)),
            n <= max,
        decreases cs.len() - i,
    {
        let c = cs[i];
        assert(c == d[i - from]);
        if !char_is_digit(c) {
            return None;
        }
        let v: u64 = (c as u64) - 48;
        proof {
            assert(d.take(i - from + 1).drop_last() =~= d.take(i - from));
            lemma_value_monotone(d, i - from + 1, d.len() as int);
            assert(d.take(d.len() as int) =~= d);
        }
        let wide: u128 = (n as u128) * 10 + (v as u128);
        if wide > (max as u128) {
            return None;
        }
        n = wide as u64;
        i = i + 1;
    }
    assert(d.take(d.len() as int) =~= d);
    Some(n)
}

/// More digits do not make the value smaller.
proof fn lemma_value_monotone(d: Seq<char>, i: int, j: int)
    requires
        0 <= i <= j <= d.len(),
    ensures
        value(d.take(i)) <= value(d.take(j)),
    decreases j - i,
{
    if i < j {
        lemma_value_monotone(d, i, j - 1);
        assert(d.take(j).drop_last() =~= d.take(j - 1));
    }
}

/// Reads an unsigned number no greater than `max`.
pub fn parse_unsigned(s: &str, max: u64) -> (r: Option<u64>)
    ensures
        r == (match unsigned(s@, max as nat) {
            Some(n) => Some(n as u64),
            None => None,
        }),
{
    let cs = chars_of(s);
    if cs.len() > 0 && cs[0] == '+' {
        parse_digits(&cs, 1, max)
    } else {
        assert(cs@.skip(0) =~= cs@);
        parse_digits(&cs, 0, max)
    }
}

/// Reads a 32-bit signed number.
pub fn parse_i32(s: &str) -> (r: Option<i32>)
    ensures
        r == (match signed(s@, i32::MIN as int, i32::MAX as int) {
            Some(n) => Some(n as i32),
            None => None,
        }),
{
    let cs = chars_of(s);
    if cs.len() > 0 && cs[0] == '-' {
        match parse_digits(&cs, 1, 0x8000_0000) {
            Some(n) => Some((-(n as i64)) as i32),
            None => None,
        }
    } else {
        match parse_unsigned(s, 0x7fff_ffff) {
            Some(n) => Some(n as i32),
            None => None,
        }
    }
}

// --- Laws ---

/// Decimal numbers are written in base ten, the highest digit first and without leading zeros,
/// and read by the same rule, with leading zeros or a plus sign allowed; anything but digits,
/// or a number that is too large, is refused.
pub proof fn law_decimal_digits(n: nat, d: nat, s: Seq<char>, max: nat)
    requires
        d < 10,
    ensures
        decimal(d) == seq![digit_char(d)],
        digit_char(0) == '0' && digit_char(9) == '9',
        n > 0 ==> decimal(10 * n + d) == decimal(n) + decimal(d),
        decimal(n).len() > 1 ==> decimal(n)[0] != '0',
        is_digits(s) ==> value(s.push(digit_char(d))) == 10 * value(s) + d,
        is_digits(s) && value(s) <= max ==> unsigned(s, max) == Some(value(s)) && unsigned(
            seq!['+'] + s,
            max,
        ) == Some(value(s)) && unsigned(seq!['0'] + s, max) == Some(value(s)),
        is_digits(s) && value(s) > max ==> unsigned(s, max) is None,
        !is_digits(s) && (s.len() == 0 || s[0] != '+') ==> unsigned(s, max) is None,
        unsigned(seq!['-'] + s, max) is None,
{
    if n > 0 {
        assert(decimal(10 * n + d) =~= decimal(n) + decimal(d));
    }
    lemma_no_leading_zero(n);
    assert(s.push(digit_char(d)).drop_last() =~= s);
    let plus = seq!['+'] + s;
    assert(plus.skip(1) =~= s);
    let zero = seq!['0'] + s;
    lemma_leading_zero(s);
    if is_digits(s) {
        assert(is_digit(s[0]));
        assert forall|i: int| 0 <= i < zero.len() implies is_digit(#[trigger] zero[i]) by {
            if i > 0 {
                assert(zero[i] == s[i - 1]);
            }
        }
        assert(strip_plus(zero) == zero);
        assert(strip_plus(s) == s);
    }
    let minus = seq!['-'] + s;
    assert(minus[0] == '-');
    assert(strip_plus(minus) == minus);
    assert(!is_digit(minus[0]));
}

proof fn lemma_no_leading_zero(n: nat)
    ensures
        n > 0 ==> decimal(n)[0] != '0',
        decimal(n).len() > 1 ==> n > 0,
        decimal(n).len() > 0,
    decreases n,
{
    if n >= 10 {
        lemma_no_leading_zero(n / 10);
    }
}

proof fn lemma_leading_zero(s: Seq<char>)
    ensures
        value(seq!['0'] + s) == value(s),
    decreases s.len(),
{
    let z = seq!['0'] + s;
    if s.len() == 0 {
        assert(z.drop_last() =~= s);
        assert(z.last() == '0');
    } else {
        assert(z.drop_last() =~= seq!['0'] + s.drop_last());
        assert(z.last() == s.last());
        lemma_leading_zero(s.drop_last());
    }
}

/// A minus sign before a number that is read makes it negative.
pub proof fn law_negative_numbers(s: Seq<char>, min: int, max: int)
    requires
        is_digits(s),
    ensures
        signed(seq!['-'] + s, min, max) == (if -value(s) >= min {
            Some(-value(s))
        } else {
            None::<int>
        }),
        signed(s, min, max) == (match unsigned(s, value(s)) {
            Some(n) => if n <= max {
                Some(n as int)
            } else {
                None
            },
            None => None::<int>,
        }),
{
    assert((seq!['-'] + s).skip(1) =~= s);
    assert(is_digit(s[0]));
}

}
