//! Decimal numbers as text: how integers are written, and how they are read.
//!
//! Reading follows the rules of Rust's integer parsing: an optional sign (for an
//! unsigned type only `+`), then at least one decimal digit and nothing else, and
//! a value within the range of the type.

use vstd::prelude::*;

verus! {

/// The decimal digit of value `d`, for `d` below 10.
pub open spec fn digit_char(d: int) -> char {
    (0x30 + d) as char
}

/// The decimal digits of `n`, without leading zeros.
pub open spec fn decimal_digits(n: nat) -> Seq<char>
    decreases n,
{
    if n < 10 {
        seq![digit_char(n as int)]
    } else {
        decimal_digits(n / 10).push(digit_char((n % 10) as int))
    }
}

/// How a signed integer is written: a minus sign where it is negative, then the
/// digits of its magnitude.
pub open spec fn signed_decimal(n: int) -> Seq<char> {
    if n < 0 {
        seq!['-'] + decimal_digits((-n) as nat)
    } else {
        decimal_digits(n as nat)
    }
}

/// Appends the decimal digits of `n` to `out`.
pub fn push_decimal(out: &mut String, n: u64)
    ensures
        final(out)@ == old(out)@ + decimal_digits(n as nat),
    decreases n,
{
    if n >= 10 {
        push_decimal(out, n / 10);
    }
    let d: u8 = (n % 10) as u8;
    out.push((0x30 + d) as char);
    proof {
        if n >= 10 {
            assert(old(out)@ + decimal_digits(n as nat) == (old(out)@ + decimal_digits(
                (n / 10) as nat,
            )).push(digit_char((n % 10) as int)));
        } else {
            assert(old(out)@ + decimal_digits(n as nat) == old(out)@.push(digit_char(n as int)));
        }
    }
}

/// Appends `n` as a signed decimal number to `out`.
pub fn push_signed_decimal(out: &mut String, n: i64)
    ensures
        final(out)@ == old(out)@ + signed_decimal(n as int),
{
    if n < 0 {
        out.push('-');
        let magnitude: u64 = if n == i64::MIN {
            0x8000_0000_0000_0000
        } else {
            (-n) as u64
        };
        push_decimal(out, magnitude);
        assert(old(out)@.push('-') + decimal_digits(magnitude as nat) == old(out)@ + (seq!['-']
            + decimal_digits(magnitude as nat)));
    } else {
        push_decimal(out, n as u64);
    }
}

/// Whether `c` is a decimal digit.
pub open spec fn is_digit(c: char) -> bool {
    '0' <= c && c <= '9'
}

/// Whether `s` holds decimal digits only.
pub open spec fn all_digits(s: Seq<char>) -> bool {
    forall|i: int| 0 <= i < s.len() ==> is_digit(#[trigger] s[i])
}

/// The number that the decimal digits `s` spell.
pub open spec fn digits_value(s: Seq<char>) -> nat
    decreases s.len(),
{
    if s.len() == 0 {
        0
    } else {
        (digits_value(s.drop_last()) * 10 + (s.last() as u8 - 0x30)) as nat
    }
}

/// The number that `s` spells as an unsigned integer of at most `max`: an
/// optional `+`, then at least one digit and nothing else.
pub open spec fn parse_unsigned(s: Seq<char>, max: nat) -> Option<nat> {
    let digits: Seq<char> = if s.len() > 0 && s[0] == '+' {
        s.skip(1)
    } else {
        s
    };
    if digits.len() > 0 && all_digits(digits) && digits_value(digits) <= max {
        Some(digits_value(digits))
    } else {
        None
    }
}

/// The number that `s` spells as a signed integer between `min` and `max`: an
/// optional `+` or `-`, then at least one digit and nothing else.
pub open spec fn parse_signed(s: Seq<char>, min: int, max: int) -> Option<int> {
    let negative: bool = s.len() > 0 && s[0] == '-';
    let digits: Seq<char> = if s.len() > 0 && (s[0] == '+' || s[0] == '-') {
        s.skip(1)
    } else {
        s
    };
    let value: int = if negative {
        -(digits_value(digits) as int)
    } else {
        digits_value(digits) as int
    };
    if digits.len() > 0 && all_digits(digits) && min <= value <= max {
        Some(value)
    } else {
        None
    }
}

/// A number spelled by digits does not shrink when more digits follow.
pub proof fn lemma_digits_value_grows(s: Seq<char>, k: int)
    requires
        all_digits(s),
        0 <= k <= s.len(),
    ensures
        digits_value(s.take(k)) <= digits_value(s),
    decreases s.len() - k,
{
    if k == s.len() {
        assert(s.take(k) == s);
    } else {
        lemma_digits_value_grows(s, k + 1);
        let longer = s.take(k + 1);
        assert(longer.drop_last() == s.take(k));
        assert(is_digit(s[k]));
        assert(longer.last() == s[k]);
    }
}

/// The value of the digits `s[from..to]`, where they are digits and the value is
/// at most `max`.
fn digits_in_range(s: &Vec<char>, from: usize, to: usize, max: u64) -> (r: Option<u64>)
    requires
        from <= to <= s.len(),
        max < 0x1000_0000_0000_0000,
    ensures
        ({
            let digits = s@.subrange(from as int, to as int);
            match r {
                Some(v) => digits.len() > 0 && all_digits(digits) && digits_value(digits) == v
                    && v <= max,
                None => !(digits.len() > 0 && all_digits(digits) && digits_value(digits) <= max),
            }
        }),
{
    let ghost digits = s@.subrange(from as int, to as int);
    if from == to {
        return None;
    }
    let mut value: u64 = 0;
    let mut i: usize = from;
    while i < to
        invariant
            from <= i <= to <= s.len(),
            max < 0x1000_0000_0000_0000,
            digits == s@.subrange(from as int, to as int),
            all_digits(digits.take(i - from)),
            value == digits_value(digits.take(i - from)),
            value <= max,
        decreases to - i,
    {
        let c: char = s[i];
        let ghost next = digits.take(i - from + 1);
        assert(next.drop_last() == digits.take(i - from));
        assert(next.last() == c);
        if !('0' <= c && c <= '9') {
            assert(!is_digit(digits[i - from]));
            return None;
        }
        let d: u64 = (c as u8 - 0x30) as u64;
        value = value * 10 + d;
        assert(all_digits(next)) by {
            assert forall|k: int| 0 <= k < next.len() implies is_digit(#[trigger] next[k]) by {
                if k < next.len() - 1 {
                    assert(next[k] == digits.take(i - from)[k]);
                }
            }
        }
        if value > max {
            proof {
                if all_digits(digits) {
                    lemma_digits_value_grows(digits, i - from + 1);
                }
            }
            return None;
        }
        i += 1;
    }
    assert(digits.take(to - from) == digits);
    Some(value)
}

/// Reads `s[from..to]` as an unsigned decimal number of at most `max`.
pub(crate) fn parse_unsigned_range(s: &Vec<char>, from: usize, to: usize, max: u64) -> (r: Option<u64>)
    requires
        from <= to <= s.len(),
        max < 0x1000_0000_0000_0000,
    ensures
        match r {
            Some(v) => parse_unsigned(s@.subrange(from as int, to as int), max as nat) == Some(
                v as nat,
            ),
            None => parse_unsigned(s@.subrange(from as int, to as int), max as nat) is None,
        },
{
    let ghost whole = s@.subrange(from as int, to as int);
    let start: usize = if from < to && s[from] == '+' {
        from + 1
    } else {
        from
    };
    proof {
        if start > from {
            assert(whole[0] == '+');
            assert(whole.skip(1) == s@.subrange(start as int, to as int));
        } else if from < to {
            assert(whole[0] == s@[from as int]);
        }
    }
    digits_in_range(s, start, to, max)
}

/// Reads `s[from..to]` as a signed decimal number within the range of `i32`.
pub(crate) fn parse_i32_range(s: &Vec<char>, from: usize, to: usize) -> (r: Option<i32>)
    requires
        from <= to <= s.len(),
    ensures
        match r {
            Some(v) => parse_signed(
                s@.subrange(from as int, to as int),
                i32::MIN as int,
                i32::MAX as int,
            ) == Some(v as int),
            None => parse_signed(
                s@.subrange(from as int, to as int),
                i32::MIN as int,
                i32::MAX as int,
            ) is None,
        },
{
    let ghost whole = s@.subrange(from as int, to as int);
    let negative: bool = from < to && s[from] == '-';
    let start: usize = if from < to && (s[from] == '+' || s[from] == '-') {
        from + 1
    } else {
        from
    };
    proof {
        if start > from {
            assert(whole[0] == s@[from as int]);
            assert(whole.skip(1) == s@.subrange(start as int, to as int));
        } else if from < to {
            assert(whole[0] == s@[from as int]);
        }
    }
    if negative {
        match digits_in_range(s, start, to, 0x8000_0000) {
            Some(v) => Some((-(v as i64)) as i32),
            None => None,
        }
    } else {
        match digits_in_range(s, start, to, 0x7FFF_FFFF) {
            Some(v) => Some(v as i32),
            None => None,
        }
    }
}

/// Reads a text as a `u32`.
pub fn parse_u32(text: &str) -> (r: Option<u32>)
    ensures
        match r {
            Some(v) => parse_unsigned(text@, u32::MAX as nat) == Some(v as nat),
            None => parse_unsigned(text@, u32::MAX as nat) is None,
        },
{
    let s = crate::text::chars_of(text);
    assert(s@.subrange(0, s.len() as int) == s@);
    match parse_unsigned_range(&s, 0, s.len(), 0xFFFF_FFFF) {
        Some(v) => Some(v as u32),
        None => None,
    }
}

/// Reads a text as an `i32`.
pub fn parse_i32(text: &str) -> (r: Option<i32>)
    ensures
        match r {
            Some(v) => parse_signed(text@, i32::MIN as int, i32::MAX as int) == Some(v as int),
            None => parse_signed(text@, i32::MIN as int, i32::MAX as int) is None,
        },
{
    let s = crate::text::chars_of(text);
    assert(s@.subrange(0, s.len() as int) == s@);
    parse_i32_range(&s, 0, s.len())
}

} // verus!
