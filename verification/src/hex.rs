//! Hexadecimal digits and octets as they stand in a PDU string.

use vstd::prelude::*;

verus! {

/// The value of a hexadecimal digit, in either case.
pub open spec fn hex_digit(c: char) -> Option<u8> {
    if '0' <= c && c <= '9' {
        Some((c as u8 - 0x30) as u8)
    } else if 'A' <= c && c <= 'F' {
        Some((c as u8 - 0x41 + 10) as u8)
    } else if 'a' <= c && c <= 'f' {
        Some((c as u8 - 0x61 + 10) as u8)
    } else {
        None
    }
}

/// The value of a hexadecimal digit, or `None` for any other character.
pub fn hex_digit_value(c: char) -> (r: Option<u8>)
    ensures
        r == hex_digit(c),
        r matches Some(d) ==> d < 16,
{
    if '0' <= c && c <= '9' {
        Some(c as u8 - 0x30)
    } else if 'A' <= c && c <= 'F' {
        Some(c as u8 - 0x41 + 10)
    } else if 'a' <= c && c <= 'f' {
        Some(c as u8 - 0x61 + 10)
    } else {
        None
    }
}

/// The octet that two characters spell when read as a base-16 integer of type `u8`:
/// two hexadecimal digits, or, as integer parsing allows a sign, `+` and one digit.
pub open spec fn octet_value(a: char, b: char) -> Option<u8> {
    match hex_digit(b) {
        Some(low) => match hex_digit(a) {
            Some(high) => Some((16 * high + low) as u8),
            None => if a == '+' {
                Some(low)
            } else {
                None
            },
        },
        None => None,
    }
}

/// Reads two characters as an octet.
pub fn parse_octet(a: char, b: char) -> (r: Option<u8>)
    ensures
        r == octet_value(a, b),
{
    match hex_digit_value(b) {
        Some(low) => match hex_digit_value(a) {
            Some(high) => Some(16 * high + low),
            None => if a == '+' {
                Some(low)
            } else {
                None
            },
        },
        None => None,
    }
}

/// The octet spelled at `pos` and `pos + 1` of `s`.
pub open spec fn octet_at(s: Seq<char>, pos: int) -> Option<u8>
    recommends
        0 <= pos,
        pos + 2 <= s.len(),
{
    octet_value(s[pos], s[pos + 1])
}

/// Reads the octet at `pos` and `pos + 1` of `s`.
pub fn read_octet(s: &Vec<char>, pos: usize) -> (r: Option<u8>)
    requires
        pos + 2 <= s.len(),
    ensures
        r == octet_at(s@, pos as int),
{
    parse_octet(s[pos], s[pos + 1])
}

/// The octets that the successive pairs of `s` spell. A pair that spells no octet
/// contributes nothing; a last character without a partner is ignored.
pub open spec fn octets_of(s: Seq<char>) -> Seq<u8>
    decreases s.len(),
{
    if s.len() < 2 {
        Seq::empty()
    } else if s.len() % 2 == 1 {
        octets_of(s.drop_last())
    } else {
        let init: Seq<u8> = octets_of(s.take(s.len() - 2));
        match octet_value(s[s.len() - 2], s[s.len() - 1]) {
            Some(b) => init.push(b),
            None => init,
        }
    }
}

/// The octets spelled by the pairs of `s[from..to]`.
pub fn octets_of_range(s: &Vec<char>, from: usize, to: usize) -> (bytes: Vec<u8>)
    requires
        from <= to <= s.len(),
    ensures
        bytes@ == octets_of(s@.subrange(from as int, to as int)),
{
    let mut bytes: Vec<u8> = Vec::new();
    let mut i: usize = from;
    while to - i >= 2
        invariant
            from <= i <= to <= s.len(),
            (i - from) % 2 == 0,
            bytes@ == octets_of(s@.subrange(from as int, i as int)),
        decreases to - i,
    {
        let ghost next = s@.subrange(from as int, i as int + 2);
        assert(next.take(next.len() - 2) == s@.subrange(from as int, i as int));
        match parse_octet(s[i], s[i + 1]) {
            Some(b) => bytes.push(b),
            None => {},
        }
        i += 2;
    }
    proof {
        let whole = s@.subrange(from as int, to as int);
        if i < to {
            assert(whole.drop_last() == s@.subrange(from as int, i as int));
        }
    }
    bytes
}

} // verus!
