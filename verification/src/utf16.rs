//! Big-endian UTF-16 (UCS2) text as carried in the user data of a PDU.

use crate::text::option_string_view;
use vstd::prelude::*;

verus! {

/// Whether `u` is the first unit of a surrogate pair.
pub open spec fn is_high_surrogate(u: u16) -> bool {
    0xD800 <= u && u <= 0xDBFF
}

/// Whether `u` is the second unit of a surrogate pair.
pub open spec fn is_low_surrogate(u: u16) -> bool {
    0xDC00 <= u && u <= 0xDFFF
}

/// The code point that a high and a low surrogate stand for together.
pub open spec fn surrogate_pair_value(high: u16, low: u16) -> u32 {
    (0x10000 + (high - 0xD800) * 0x400 + (low - 0xDC00)) as u32
}

/// `rest` with `prefix` in front, where there is a `rest`.
pub open spec fn prefixed(prefix: Seq<char>, rest: Option<Seq<char>>) -> Option<Seq<char>> {
    match rest {
        Some(r) => Some(prefix + r),
        None => None,
    }
}

/// The text that a sequence of UTF-16 code units encodes; `None` where a surrogate
/// stands without its partner.
pub open spec fn utf16_decode(units: Seq<u16>) -> Option<Seq<char>>
    decreases units.len(),
{
    if units.len() == 0 {
        Some(Seq::empty())
    } else if !is_high_surrogate(units[0]) && !is_low_surrogate(units[0]) {
        prefixed(seq![units[0] as char], utf16_decode(units.skip(1)))
    } else if is_high_surrogate(units[0]) && units.len() >= 2 && is_low_surrogate(units[1]) {
        prefixed(
            seq![surrogate_pair_value(units[0], units[1]) as char],
            utf16_decode(units.skip(2)),
        )
    } else {
        None
    }
}

/// The 16-bit units that an even number of bytes holds, high byte first.
pub open spec fn be16_units(bytes: Seq<u8>) -> Seq<u16> {
    Seq::new(bytes.len() / 2, |k: int| (bytes[2 * k] * 256 + bytes[2 * k + 1]) as u16)
}

/// The text that `bytes` holds as big-endian UTF-16; `None` where the number of
/// bytes is odd or the code units are no valid UTF-16.
pub open spec fn ucs2_text(bytes: Seq<u8>) -> Option<Seq<char>> {
    if bytes.len() % 2 == 1 {
        None
    } else {
        utf16_decode(be16_units(bytes))
    }
}

/// Decodes `bytes` as big-endian UTF-16.
pub fn decode_utf16_be(bytes: &Vec<u8>) -> (r: Option<String>)
    ensures
        option_string_view(r) == ucs2_text(bytes@),
{
    let n: usize = bytes.len();
    if n % 2 == 1 {
        return None;
    }
    let ghost units = be16_units(bytes@);
    let mut out = String::new();
    let mut i: usize = 0;
    assert(units.skip(0) == units);
    proof {
        let whole = utf16_decode(units);
        if whole is Some {
            assert(out@ + whole.unwrap() == whole.unwrap());
        }
    }
    while i < n
        invariant
            n == bytes.len(),
            n % 2 == 0,
            i % 2 == 0,
            i <= n,
            units == be16_units(bytes@),
            utf16_decode(units) == prefixed(out@, utf16_decode(units.skip(i as int / 2))),
        decreases n - i,
    {
        let ghost k: int = i as int / 2;
        let ghost tail = units.skip(k);
        let unit: u32 = bytes[i] as u32 * 256 + bytes[i + 1] as u32;
        assert(tail.len() > 0 && tail[0] == unit);
        if unit < 0xD800 || unit > 0xDFFF {
            assert(tail.skip(1) == units.skip(k + 1));
            match char::from_u32(unit) {
                Some(c) => {
                    proof {
                        let rest = utf16_decode(units.skip(k + 1));
                        if rest is Some {
                            assert(out@ + (seq![c] + rest.unwrap()) == out@.push(c)
                                + rest.unwrap());
                        }
                    }
                    out.push(c);
                },
                None => {
                    return None;
                },
            }
            i += 2;
        } else if unit <= 0xDBFF && n - i >= 4 {
            let low: u32 = bytes[i + 2] as u32 * 256 + bytes[i + 3] as u32;
            assert(tail.len() >= 2 && tail[1] == low);
            if low < 0xDC00 || low > 0xDFFF {
                return None;
            }
            assert(tail.skip(2) == units.skip(k + 2));
            let code: u32 = 0x10000 + (unit - 0xD800) * 0x400 + (low - 0xDC00);
            match char::from_u32(code) {
                Some(c) => {
                    proof {
                        let rest = utf16_decode(units.skip(k + 2));
                        if rest is Some {
                            assert(out@ + (seq![c] + rest.unwrap()) == out@.push(c)
                                + rest.unwrap());
                        }
                    }
                    out.push(c);
                },
                None => {
                    return None;
                },
            }
            i += 4;
        } else {
            assert(tail.len() >= 2 <==> n - i >= 4);
            return None;
        }
    }
    assert(units.skip(i as int / 2) == Seq::<u16>::empty());
    assert(out@ + Seq::<char>::empty() == out@);
    Some(out)
}

} // verus!
