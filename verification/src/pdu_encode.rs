//! The wire form of an SMS-DELIVER PDU: how its fields are written, and the
//! proof that decoding what was written gives back what went in.

use crate::hex::{hex_digit, octet_at, octet_value, octets_of};
use crate::pdu::{
    bcd_digits, bcd_nibble, decode_normalized, decode_spec, normalized, parse_header,
    parse_user_data_header, single_part, ucs2_of_hex, Concatenation, DecodeError, DecodedView,
    PduHeader,
};
use crate::text::{ascii_upper, ascii_upper_seq, chars_of, is_whitespace, trim};
use crate::utf16::{be16_units, prefixed, ucs2_text, utf16_decode};
use vstd::prelude::*;

verus! {

/// The upper-case hexadecimal digit of value `n`, for `n` below 16.
pub open spec fn hex_upper_digit(n: int) -> char {
    if n < 10 {
        (0x30 + n) as char
    } else {
        (0x41 + n - 10) as char
    }
}

/// The two hexadecimal digits of an octet.
pub open spec fn hex_of_octet(b: u8) -> Seq<char> {
    seq![hex_upper_digit(b as int / 16), hex_upper_digit(b as int % 16)]
}

/// The hexadecimal text of a sequence of octets.
pub open spec fn hex_of_octets(bytes: Seq<u8>) -> Seq<char>
    decreases bytes.len(),
{
    if bytes.len() == 0 {
        Seq::empty()
    } else {
        hex_of_octets(bytes.drop_last()) + hex_of_octet(bytes.last())
    }
}

/// The bytes of a sequence of 16-bit units, high byte first.
#[verifier::opaque]
pub open spec fn be_bytes(units: Seq<u16>) -> Seq<u8> {
    Seq::new(
        2 * units.len(),
        |i: int|
            if i % 2 == 0 {
                (units[i / 2] as int / 256) as u8
            } else {
                (units[i / 2] as int % 256) as u8
            },
    )
}

/// The UTF-16 code units of one character.
pub open spec fn utf16_units(c: char) -> Seq<u16> {
    let u: int = c as int;
    if u < 0x10000 {
        seq![u as u16]
    } else {
        seq![(0xD800 + (u - 0x10000) / 0x400) as u16, (0xDC00 + (u - 0x10000) % 0x400) as u16]
    }
}

/// The UTF-16 code units of a text.
pub open spec fn utf16_encode(text: Seq<char>) -> Seq<u16>
    decreases text.len(),
{
    if text.len() == 0 {
        Seq::empty()
    } else {
        utf16_units(text.first()) + utf16_encode(text.drop_first())
    }
}

/// The hexadecimal user data that carries `text` as UCS2.
pub open spec fn ucs2_hex(text: Seq<char>) -> Seq<char> {
    hex_of_octets(be_bytes(utf16_encode(text)))
}

/// A semi-octet of an address: a decimal digit or one of `A` to `E`.
pub open spec fn is_bcd_digit(c: char) -> bool {
    ('0' <= c && c <= '9') || ('A' <= c && c <= 'E')
}

/// The nibble-swapped form of a number: the digits pair by pair, each pair
/// turned round, a last single digit filled up with `F`.
pub open spec fn bcd_encode(digits: Seq<char>) -> Seq<char>
    decreases digits.len(),
{
    if digits.len() == 0 {
        Seq::empty()
    } else if digits.len() % 2 == 1 {
        bcd_encode(digits.drop_last()) + seq!['F', digits.last()]
    } else {
        bcd_encode(digits.take(digits.len() - 2)) + seq![
            digits[digits.len() - 1],
            digits[digits.len() - 2],
        ]
    }
}

/// Whether every character of `s` is a decimal digit or one of `A` to `F`.
pub open spec fn all_upper_hex(s: Seq<char>) -> bool {
    forall|i: int| 0 <= i < s.len() ==> #[trigger] is_upper_hex(s[i])
}

/// Whether `c` is a decimal digit or one of `A` to `F`.
pub open spec fn is_upper_hex(c: char) -> bool {
    ('0' <= c && c <= '9') || ('A' <= c && c <= 'F')
}

/// Reading the two digits of an octet gives the octet.
pub proof fn lemma_octet_value_of_hex(b: u8)
    ensures
        octet_value(hex_upper_digit(b as int / 16), hex_upper_digit(b as int % 16)) == Some(b),
        is_upper_hex(hex_upper_digit(b as int / 16)),
        is_upper_hex(hex_upper_digit(b as int % 16)),
{
    let h = hex_upper_digit(b as int / 16);
    let l = hex_upper_digit(b as int % 16);
    assert(hex_digit(h) == Some((b / 16) as u8));
    assert(hex_digit(l) == Some((b % 16) as u8));
}

/// Hexadecimal text has two upper-case digits for each octet.
pub proof fn lemma_hex_of_octets_len(bytes: Seq<u8>)
    ensures
        hex_of_octets(bytes).len() == 2 * bytes.len(),
        all_upper_hex(hex_of_octets(bytes)),
    decreases bytes.len(),
{
    if bytes.len() > 0 {
        lemma_hex_of_octets_len(bytes.drop_last());
        lemma_octet_value_of_hex(bytes.last());
    }
}

/// Reading hexadecimal text gives back the octets it was written from.
pub proof fn lemma_octets_of_hex(bytes: Seq<u8>)
    ensures
        octets_of(hex_of_octets(bytes)) == bytes,
    decreases bytes.len(),
{
    lemma_hex_of_octets_len(bytes);
    if bytes.len() > 0 {
        let init = bytes.drop_last();
        lemma_octets_of_hex(init);
        lemma_hex_of_octets_len(init);
        lemma_octet_value_of_hex(bytes.last());
        let h = hex_of_octets(bytes);
        assert(h.take(h.len() - 2) == hex_of_octets(init));
        assert(init.push(bytes.last()) == bytes);
    }
}

/// Splitting into bytes and joining again gives back the units.
pub proof fn lemma_units_of_be_bytes(units: Seq<u16>)
    ensures
        be_bytes(units).len() == 2 * units.len(),
        be16_units(be_bytes(units)) == units,
{
    reveal(be_bytes);
    let bytes = be_bytes(units);
    assert forall|k: int| 0 <= k < units.len() implies be16_units(bytes)[k] == units[k] by {
        assert(bytes[2 * k] == (units[k] as int / 256) as u8);
        assert(bytes[2 * k + 1] == (units[k] as int % 256) as u8);
    }
    assert(be16_units(bytes) =~= units);
}

/// Decoding the code units of one character gives back the character.
pub proof fn lemma_utf16_units_decode(c: char, tail: Seq<u16>)
    ensures
        utf16_decode(utf16_units(c) + tail) == prefixed(seq![c], utf16_decode(tail)),
{
    let units = utf16_units(c) + tail;
    let u: int = c as int;
    if u < 0x10000 {
        assert(units[0] == u as u16);
        assert(units[0] as int == u);
        assert(units[0] as char == c);
        assert(units.skip(1) == tail);
    } else {
        let high = units[0];
        let low = units[1];
        assert(high == (0xD800 + (u - 0x10000) / 0x400) as u16);
        assert(low == (0xDC00 + (u - 0x10000) % 0x400) as u16);
        assert(high as int == 0xD800 + (u - 0x10000) / 0x400);
        assert(low as int == 0xDC00 + (u - 0x10000) % 0x400);
        assert(crate::utf16::surrogate_pair_value(high, low) as int == u);
        assert(crate::utf16::surrogate_pair_value(high, low) as char == c);
        assert(units.skip(2) == tail);
    }
}

/// Decoding the code units of a text gives back the text.
pub proof fn lemma_utf16_round_trip(text: Seq<char>)
    ensures
        utf16_decode(utf16_encode(text)) == Some(text),
    decreases text.len(),
{
    if text.len() > 0 {
        let c = text.first();
        let rest = text.drop_first();
        lemma_utf16_round_trip(rest);
        lemma_utf16_units_decode(c, utf16_encode(rest));
        assert(seq![c] + rest == text);
    }
}

/// The UCS2 user data of a text decodes to that text.
pub proof fn lemma_ucs2_round_trip(text: Seq<char>)
    ensures
        ucs2_of_hex(ucs2_hex(text)) == Some(text),
        all_upper_hex(ucs2_hex(text)),
        ucs2_hex(text).len() % 2 == 0,
        text.len() > 0 ==> ucs2_hex(text).len() > 0,
{
    let units = utf16_encode(text);
    let bytes = be_bytes(units);
    lemma_units_of_be_bytes(units);
    lemma_hex_of_octets_len(bytes);
    lemma_octets_of_hex(bytes);
    lemma_utf16_round_trip(text);
    assert(ucs2_hex(text).len() == 4 * units.len());
    assert(ucs2_text(bytes) == Some(text));
    if text.len() > 0 {
        assert(utf16_units(text.first()).len() > 0);
        assert(units.len() > 0);
    }
}

/// The nibble-swapped form of a number has an even number of upper-case digits.
pub proof fn lemma_bcd_encode_len(digits: Seq<char>)
    requires
        forall|i: int| 0 <= i < digits.len() ==> is_bcd_digit(#[trigger] digits[i]),
    ensures
        bcd_encode(digits).len() == digits.len() + digits.len() % 2,
        all_upper_hex(bcd_encode(digits)),
    decreases digits.len(),
{
    if digits.len() == 0 {
    } else if digits.len() % 2 == 1 {
        lemma_bcd_encode_len(digits.drop_last());
    } else {
        lemma_bcd_encode_len(digits.take(digits.len() - 2));
    }
}

/// Decoding the nibble-swapped form of a number gives back its digits.
pub proof fn lemma_bcd_round_trip(digits: Seq<char>)
    requires
        forall|i: int| 0 <= i < digits.len() ==> is_bcd_digit(#[trigger] digits[i]),
    ensures
        bcd_digits(bcd_encode(digits)) == digits,
    decreases digits.len(),
{
    lemma_bcd_encode_len(digits);
    let e = bcd_encode(digits);
    if digits.len() == 0 {
    } else if digits.len() % 2 == 1 {
        let init = digits.drop_last();
        lemma_bcd_round_trip(init);
        lemma_bcd_encode_len(init);
        assert(e.take(e.len() - 2) == bcd_encode(init));
        assert(is_bcd_digit(digits[digits.len() - 1]));
        assert(bcd_nibble(e[e.len() - 1]) == seq![digits.last()]);
        assert(bcd_nibble(e[e.len() - 2]) == Seq::<char>::empty());
        assert(init + seq![digits.last()] + Seq::<char>::empty() == digits);
    } else {
        let init = digits.take(digits.len() - 2);
        lemma_bcd_round_trip(init);
        lemma_bcd_encode_len(init);
        assert(e.take(e.len() - 2) == bcd_encode(init));
        assert(is_bcd_digit(digits[digits.len() - 1]));
        assert(is_bcd_digit(digits[digits.len() - 2]));
        assert(init + seq![digits[digits.len() - 2]] + seq![digits[digits.len() - 1]] == digits);
    }
}

/// The concatenation element of a user data header, and what follows it there.
pub struct ConcatenationHeader {
    pub reference: u8,
    pub total_parts: u8,
    pub part_number: u8,
    /// The octets of further information elements.
    pub rest: Seq<u8>,
}

/// The fields of an SMS-DELIVER PDU.
pub struct DeliverPdu {
    /// The octets of the service centre address, without their length octet.
    pub service_centre: Seq<u8>,
    pub pdu_type: u8,
    pub sender_type: u8,
    /// The semi-octets of the originating address, in reading order.
    pub sender: Seq<char>,
    pub protocol_id: u8,
    pub dcs: u8,
    /// The seven octets of the service centre time stamp.
    pub timestamp: Seq<u8>,
    pub user_data_length: u8,
    pub concatenation: Option<ConcatenationHeader>,
    pub text: Seq<char>,
}

impl DeliverPdu {
    /// The fields fit their length octets, the PDU type announces a user data
    /// header exactly where there is one, a concatenated message has at least one
    /// part, and there is some text.
    pub open spec fn well_formed(self) -> bool {
        &&& self.service_centre.len() <= 255
        &&& self.sender.len() <= 255
        &&& forall|i: int| 0 <= i < self.sender.len() ==> is_bcd_digit(#[trigger] self.sender[i])
        &&& self.timestamp.len() == 7
        &&& self.text.len() > 0
        &&& (self.pdu_type & 0x40 != 0) == (self.concatenation is Some)
        &&& match self.concatenation {
            Some(h) => 5 + h.rest.len() <= 255 && h.total_parts >= 1,
            None => true,
        }
    }

    /// The header up to and including the user data length.
    #[verifier::opaque]
    pub open spec fn encode_header(self) -> Seq<char> {
        hex_of_octet(self.service_centre.len() as u8) + hex_of_octets(self.service_centre)
            + hex_of_octet(self.pdu_type) + hex_of_octet(self.sender.len() as u8) + hex_of_octet(
            self.sender_type,
        ) + bcd_encode(self.sender) + hex_of_octet(self.protocol_id) + hex_of_octet(self.dcs)
            + hex_of_octets(self.timestamp) + hex_of_octet(self.user_data_length)
    }

    /// The user data header, where there is one.
    pub open spec fn encode_user_data_header(self) -> Seq<char> {
        match self.concatenation {
            Some(h) => hex_of_octet((5 + h.rest.len()) as u8) + seq!['0', '0', '0', '3']
                + hex_of_octet(h.reference) + hex_of_octet(h.total_parts) + hex_of_octet(
                h.part_number,
            ) + hex_of_octets(h.rest),
            None => Seq::empty(),
        }
    }

    /// The PDU as upper-case hexadecimal text, its text carried as UCS2.
    pub open spec fn encode(self) -> Seq<char> {
        self.encode_header() + self.encode_user_data_header() + ucs2_hex(self.text)
    }

    /// The message that the PDU carries.
    pub open spec fn message(self) -> DecodedView {
        match self.concatenation {
            Some(h) => DecodedView {
                sender: self.sender,
                content: self.text,
                is_multipart: true,
                reference: h.reference,
                total_parts: h.total_parts,
                part_number: h.part_number,
            },
            None => DecodedView {
                sender: self.sender,
                content: self.text,
                is_multipart: false,
                reference: 0,
                total_parts: 1,
                part_number: 1,
            },
        }
    }
}

/// Text without white space at either end is its own trimmed form.
pub proof fn lemma_trim_identity(s: Seq<char>)
    requires
        s.len() == 0 || (!is_whitespace(s.first()) && !is_whitespace(s.last())),
    ensures
        trim(s) == s,
{
}

/// Upper-case hexadecimal text is its own normal form.
pub proof fn lemma_normalized_identity(s: Seq<char>)
    requires
        all_upper_hex(s),
    ensures
        normalized(s) == s,
{
    if s.len() > 0 {
        assert(is_upper_hex(s[0]));
        assert(is_upper_hex(s[s.len() - 1]));
    }
    lemma_trim_identity(s);
    assert forall|i: int| 0 <= i < s.len() implies ascii_upper(s[i]) == s[i] by {
        assert(is_upper_hex(s[i]));
    }
    assert(ascii_upper_seq(s) =~= s);
}

proof fn lemma_all_upper_hex_concat(a: Seq<char>, b: Seq<char>)
    requires
        all_upper_hex(a),
        all_upper_hex(b),
    ensures
        all_upper_hex(a + b),
{
    assert forall|i: int| 0 <= i < (a + b).len() implies is_upper_hex(#[trigger] (a + b)[i]) by {
        if i < a.len() {
            assert(is_upper_hex(a[i]));
        } else {
            assert(is_upper_hex(b[i - a.len()]));
        }
    }
}

proof fn lemma_hex_of_octet_upper(b: u8)
    ensures
        all_upper_hex(hex_of_octet(b)),
        hex_of_octet(b).len() == 2,
{
    lemma_octet_value_of_hex(b);
}

/// The header of an encoded PDU is upper-case hexadecimal text of known length.
proof fn lemma_encoded_header_shape(p: DeliverPdu)
    requires
        p.well_formed(),
    ensures
        all_upper_hex(p.encode_header()),
        p.encode_header().len() == 28 + 2 * p.service_centre.len() + p.sender.len()
            + p.sender.len() % 2,
{
    reveal(DeliverPdu::encode_header);
    let a0 = hex_of_octet(p.service_centre.len() as u8);
    let a1 = a0 + hex_of_octets(p.service_centre);
    let a2 = a1 + hex_of_octet(p.pdu_type);
    let a3 = a2 + hex_of_octet(p.sender.len() as u8);
    let a4 = a3 + hex_of_octet(p.sender_type);
    let a5 = a4 + bcd_encode(p.sender);
    let a6 = a5 + hex_of_octet(p.protocol_id);
    let a7 = a6 + hex_of_octet(p.dcs);
    let a8 = a7 + hex_of_octets(p.timestamp);
    lemma_hex_of_octet_upper(p.service_centre.len() as u8);
    lemma_hex_of_octets_len(p.service_centre);
    lemma_hex_of_octet_upper(p.pdu_type);
    lemma_hex_of_octet_upper(p.sender.len() as u8);
    lemma_hex_of_octet_upper(p.sender_type);
    lemma_bcd_encode_len(p.sender);
    lemma_hex_of_octet_upper(p.protocol_id);
    lemma_hex_of_octet_upper(p.dcs);
    lemma_hex_of_octets_len(p.timestamp);
    lemma_hex_of_octet_upper(p.user_data_length);
    lemma_all_upper_hex_concat(a0, hex_of_octets(p.service_centre));
    lemma_all_upper_hex_concat(a1, hex_of_octet(p.pdu_type));
    lemma_all_upper_hex_concat(a2, hex_of_octet(p.sender.len() as u8));
    lemma_all_upper_hex_concat(a3, hex_of_octet(p.sender_type));
    lemma_all_upper_hex_concat(a4, bcd_encode(p.sender));
    lemma_all_upper_hex_concat(a5, hex_of_octet(p.protocol_id));
    lemma_all_upper_hex_concat(a6, hex_of_octet(p.dcs));
    lemma_all_upper_hex_concat(a7, hex_of_octets(p.timestamp));
    lemma_all_upper_hex_concat(a8, hex_of_octet(p.user_data_length));
}

proof fn lemma_piece_lengths(p: DeliverPdu)
    requires
        p.well_formed(),
    ensures
        hex_of_octets(p.service_centre).len() == 2 * p.service_centre.len(),
        hex_of_octets(p.timestamp).len() == 14,
        bcd_encode(p.sender).len() == p.sender.len() + p.sender.len() % 2,
        bcd_digits(bcd_encode(p.sender)) == p.sender,
{
    lemma_hex_of_octets_len(p.service_centre);
    lemma_hex_of_octets_len(p.timestamp);
    lemma_bcd_encode_len(p.sender);
    lemma_bcd_round_trip(p.sender);
}

/// Joining texts may be grouped either way.
proof fn lemma_concat_assoc(a: Seq<char>, b: Seq<char>, c: Seq<char>)
    ensures
        (a + b) + c == a + (b + c),
{
    assert((a + b) + c =~= a + (b + c));
}

/// The front of an encoded header: the service centre address and the PDU type.
pub open spec fn encode_front(p: DeliverPdu) -> Seq<char> {
    hex_of_octet(p.service_centre.len() as u8) + hex_of_octets(p.service_centre) + hex_of_octet(
        p.pdu_type,
    )
}

/// The originating address of an encoded header.
pub open spec fn encode_address(p: DeliverPdu) -> Seq<char> {
    hex_of_octet(p.sender.len() as u8) + hex_of_octet(p.sender_type) + bcd_encode(p.sender)
}

/// The end of an encoded header, from the protocol identifier on.
pub open spec fn encode_back(p: DeliverPdu) -> Seq<char> {
    hex_of_octet(p.protocol_id) + hex_of_octet(p.dcs) + hex_of_octets(p.timestamp) + hex_of_octet(
        p.user_data_length,
    )
}

proof fn lemma_header_in_three(p: DeliverPdu)
    ensures
        p.encode_header() == encode_front(p) + encode_address(p) + encode_back(p),
{
    reveal(DeliverPdu::encode_header);
    assert(p.encode_header() =~= encode_front(p) + encode_address(p) + encode_back(p));
}

proof fn lemma_front_layout(p: DeliverPdu, t: Seq<char>, tail: Seq<char>)
    requires
        p.well_formed(),
    ensures
        ({
            let s = encode_front(p) + t + tail;
            let type_pos: int = 2 + 2 * (p.service_centre.len() as int);
            &&& encode_front(p).len() == type_pos + 2
            &&& octet_at(s, 0) == Some(p.service_centre.len() as u8)
            &&& octet_at(s, type_pos) == Some(p.pdu_type)
        }),
{
    lemma_piece_lengths(p);
    let x0 = hex_of_octet(p.service_centre.len() as u8);
    let x1 = hex_of_octets(p.service_centre);
    let x2 = hex_of_octet(p.pdu_type);
    let s = encode_front(p) + t + tail;
    assert(s[0] == x0[0]);
    assert(s[1] == x0[1]);
    lemma_octet_value_of_hex(p.service_centre.len() as u8);
    let n: int = 2 + 2 * (p.service_centre.len() as int);
    assert(s[n] == x2[0]);
    assert(s[n + 1] == x2[1]);
    lemma_octet_value_of_hex(p.pdu_type);
}

proof fn lemma_address_layout(p: DeliverPdu, a: Seq<char>, tail: Seq<char>)
    requires
        p.well_formed(),
    ensures
        ({
            let s = a + encode_address(p) + tail;
            let n: int = a.len() as int;
            let width: int = p.sender.len() as int + (p.sender.len() as int) % 2;
            &&& encode_address(p).len() == 4 + width
            &&& octet_at(s, n) == Some(p.sender.len() as u8)
            &&& s.subrange(n + 4, n + 4 + width) == bcd_encode(p.sender)
        }),
{
    lemma_piece_lengths(p);
    let x3 = hex_of_octet(p.sender.len() as u8);
    let x4 = hex_of_octet(p.sender_type);
    let x5 = bcd_encode(p.sender);
    let s = a + encode_address(p) + tail;
    let n: int = a.len() as int;
    let width: int = p.sender.len() as int + (p.sender.len() as int) % 2;
    assert(s[n] == x3[0]);
    assert(s[n + 1] == x3[1]);
    lemma_octet_value_of_hex(p.sender.len() as u8);
    assert(s.subrange(n + 4, n + 4 + width) =~= x5);
}

proof fn lemma_back_layout(p: DeliverPdu, a: Seq<char>, tail: Seq<char>)
    requires
        p.well_formed(),
    ensures
        ({
            let s = a + encode_back(p) + tail;
            let n: int = a.len() as int;
            &&& encode_back(p).len() == 20
            &&& s.len() == n + 20 + tail.len()
            &&& octet_at(s, n + 2) == Some(p.dcs)
            &&& octet_at(s, n + 18) == Some(p.user_data_length)
        }),
{
    lemma_piece_lengths(p);
    let x7 = hex_of_octet(p.dcs);
    let x9 = hex_of_octet(p.user_data_length);
    let s = a + encode_back(p) + tail;
    let n: int = a.len() as int;
    assert(s[n + 2] == x7[0]);
    assert(s[n + 3] == x7[1]);
    lemma_octet_value_of_hex(p.dcs);
    assert(s[n + 18] == x9[0]);
    assert(s[n + 19] == x9[1]);
    lemma_octet_value_of_hex(p.user_data_length);
}

/// Where the fields of an encoded header lie in `header + tail`.
proof fn lemma_header_layout(p: DeliverPdu, tail: Seq<char>)
    requires
        p.well_formed(),
    ensures
        ({
            let s = p.encode_header() + tail;
            let type_pos: int = 2 + 2 * (p.service_centre.len() as int);
            let pid_pos: int = type_pos + 6 + p.sender.len() as int + (p.sender.len() as int) % 2;
            &&& s.len() == pid_pos + 20 + tail.len()
            &&& p.encode_header().len() == pid_pos + 20
            &&& octet_at(s, 0) == Some(p.service_centre.len() as u8)
            &&& octet_at(s, type_pos) == Some(p.pdu_type)
            &&& octet_at(s, type_pos + 2) == Some(p.sender.len() as u8)
            &&& s.subrange(type_pos + 6, pid_pos) == bcd_encode(p.sender)
            &&& octet_at(s, pid_pos + 2) == Some(p.dcs)
            &&& octet_at(s, pid_pos + 18) == Some(p.user_data_length)
        }),
{
    let front = encode_front(p);
    let address = encode_address(p);
    let back = encode_back(p);
    lemma_header_in_three(p);
    lemma_front_layout(p, address, back + tail);
    lemma_address_layout(p, front, back + tail);
    lemma_back_layout(p, front + address, tail);
    lemma_concat_assoc(front + address, back, tail);
}

/// The header that a text with the given octets at their places is read as.
proof fn lemma_parse_header_fields(
    s: Seq<char>,
    service_centre_len: u8,
    pdu_type: u8,
    sender_len: u8,
    dcs: u8,
    user_data_length: u8,
)
    requires
        ({
            let type_pos: int = 2 + 2 * (service_centre_len as int);
            let pid_pos: int = type_pos + 6 + crate::pdu::sender_width(sender_len);
            &&& s.len() >= pid_pos + 20
            &&& octet_at(s, 0) == Some(service_centre_len)
            &&& octet_at(s, type_pos) == Some(pdu_type)
            &&& octet_at(s, type_pos + 2) == Some(sender_len)
            &&& octet_at(s, pid_pos + 2) == Some(dcs)
            &&& octet_at(s, pid_pos + 18) == Some(user_data_length)
        }),
    ensures
        ({
            let type_pos: int = 2 + 2 * (service_centre_len as int);
            let pid_pos: int = type_pos + 6 + crate::pdu::sender_width(sender_len);
            parse_header(s) == Ok::<PduHeader, DecodeError>(
                PduHeader {
                    has_udh: pdu_type & 0x40 != 0,
                    sender: bcd_digits(s.subrange(type_pos + 6, pid_pos)),
                    dcs,
                    body_start: pid_pos + 20,
                },
            )
        }),
{
}

/// What the header of an encoded PDU is read as, whatever follows it.
proof fn lemma_header_of_encoded(p: DeliverPdu, tail: Seq<char>)
    requires
        p.well_formed(),
    ensures
        parse_header(p.encode_header() + tail) == Ok::<PduHeader, DecodeError>(
            PduHeader {
                has_udh: p.concatenation is Some,
                sender: p.sender,
                dcs: p.dcs,
                body_start: p.encode_header().len() as int,
            },
        ),
{
    lemma_header_layout(p, tail);
    lemma_bcd_round_trip(p.sender);
    lemma_parse_header_fields(
        p.encode_header() + tail,
        p.service_centre.len() as u8,
        p.pdu_type,
        p.sender.len() as u8,
        p.dcs,
        p.user_data_length,
    );
}

impl DeliverPdu {
    /// Where the PDU stands within a concatenated message.
    pub open spec fn part(self) -> Concatenation {
        match self.concatenation {
            Some(h) => Concatenation {
                is_multipart: true,
                reference: h.reference,
                total_parts: h.total_parts,
                part_number: h.part_number,
            },
            None => single_part(),
        }
    }
}

proof fn lemma_user_data_header_shape(p: DeliverPdu)
    requires
        p.well_formed(),
    ensures
        all_upper_hex(p.encode_user_data_header()),
        match p.concatenation {
            Some(h) => p.encode_user_data_header().len() == 12 + 2 * h.rest.len(),
            None => p.encode_user_data_header().len() == 0,
        },
{
    match p.concatenation {
        Some(h) => {
            let u0 = hex_of_octet((5 + h.rest.len()) as u8);
            let u1 = u0 + seq!['0', '0', '0', '3'];
            let u2 = u1 + hex_of_octet(h.reference);
            let u3 = u2 + hex_of_octet(h.total_parts);
            let u4 = u3 + hex_of_octet(h.part_number);
            lemma_hex_of_octet_upper((5 + h.rest.len()) as u8);
            lemma_hex_of_octet_upper(h.reference);
            lemma_hex_of_octet_upper(h.total_parts);
            lemma_hex_of_octet_upper(h.part_number);
            lemma_hex_of_octets_len(h.rest);
            assert(all_upper_hex(seq!['0', '0', '0', '3']));
            lemma_all_upper_hex_concat(u0, seq!['0', '0', '0', '3']);
            lemma_all_upper_hex_concat(u1, hex_of_octet(h.reference));
            lemma_all_upper_hex_concat(u2, hex_of_octet(h.total_parts));
            lemma_all_upper_hex_concat(u3, hex_of_octet(h.part_number));
            lemma_all_upper_hex_concat(u4, hex_of_octets(h.rest));
        },
        None => {},
    }
}

/// What the user data header of an encoded PDU is read as behind the text `a`.
proof fn lemma_user_data_header_of_encoded(p: DeliverPdu, a: Seq<char>, tail: Seq<char>)
    requires
        p.well_formed(),
    ensures
        parse_user_data_header(
            a + p.encode_user_data_header() + tail,
            p.concatenation is Some,
            a.len() as int,
        ) == Ok::<(Concatenation, int), DecodeError>(
            (p.part(), (a.len() + p.encode_user_data_header().len()) as int),
        ),
{
    lemma_user_data_header_shape(p);
    match p.concatenation {
        Some(h) => {
            let u = p.encode_user_data_header();
            let s = a + u + tail;
            let n: int = a.len() as int;
            let len: u8 = (5 + h.rest.len()) as u8;
            let x0 = hex_of_octet(len);
            let x2 = hex_of_octet(h.reference);
            let x3 = hex_of_octet(h.total_parts);
            let x4 = hex_of_octet(h.part_number);
            lemma_hex_of_octets_len(h.rest);
            assert(s[n] == x0[0]);
            assert(s[n + 1] == x0[1]);
            lemma_octet_value_of_hex(len);
            assert(s.subrange(n + 2, n + 6) =~= seq!['0', '0', '0', '3']);
            assert(s[n + 6] == x2[0]);
            assert(s[n + 7] == x2[1]);
            lemma_octet_value_of_hex(h.reference);
            assert(s[n + 8] == x3[0]);
            assert(s[n + 9] == x3[1]);
            lemma_octet_value_of_hex(h.total_parts);
            assert(s[n + 10] == x4[0]);
            assert(s[n + 11] == x4[1]);
            lemma_octet_value_of_hex(h.part_number);
        },
        None => {},
    }
}

/// Decoding the wire form of a well-formed PDU gives back its sender, its text
/// and its place within a concatenated message, whatever its coding scheme.
pub proof fn lemma_decode_encoded(p: DeliverPdu)
    requires
        p.well_formed(),
    ensures
        decode_spec(p.encode()) == Ok::<DecodedView, DecodeError>(p.message()),
{
    let header = p.encode_header();
    let udh = p.encode_user_data_header();
    let text = ucs2_hex(p.text);
    let s = p.encode();
    lemma_encoded_header_shape(p);
    lemma_user_data_header_shape(p);
    lemma_ucs2_round_trip(p.text);
    lemma_all_upper_hex_concat(header, udh);
    lemma_all_upper_hex_concat(header + udh, text);
    lemma_normalized_identity(s);
    assert(decode_normalized(s) == Ok::<DecodedView, DecodeError>(p.message())) by {
        lemma_concat_assoc(header, udh, text);
        lemma_header_of_encoded(p, udh + text);
        lemma_user_data_header_of_encoded(p, header, text);
        let text_start: int = (header.len() + udh.len()) as int;
        assert(s.subrange(text_start, s.len() as int) =~= text);
    }
}

/// A well-formed PDU without a user data header, its text carried as UCS2,
/// decodes to exactly its sender digits and its text, as part 1 of 1.
pub proof fn lemma_single_part_round_trip(p: DeliverPdu)
    requires
        p.well_formed(),
        p.concatenation is None,
    ensures
        decode_spec(p.encode()) == Ok::<DecodedView, DecodeError>(
            DecodedView {
                sender: p.sender,
                content: p.text,
                is_multipart: false,
                reference: 0,
                total_parts: 1,
                part_number: 1,
            },
        ),
{
    lemma_decode_encoded(p);
}

/// A well-formed PDU whose type octet has bit 6 set and whose user data header
/// begins with `00 03` and three more octets, the second of them not 0, decodes
/// as a part of a concatenated message, with those three octets as reference,
/// number of parts and part number.
pub proof fn lemma_concatenated_part_round_trip(p: DeliverPdu)
    requires
        p.well_formed(),
        p.concatenation is Some,
    ensures
        p.pdu_type & 0x40 != 0,
        decode_spec(p.encode()) == Ok::<DecodedView, DecodeError>(
            DecodedView {
                sender: p.sender,
                content: p.text,
                is_multipart: true,
                reference: p.concatenation->0.reference,
                total_parts: p.concatenation->0.total_parts,
                part_number: p.concatenation->0.part_number,
            },
        ),
{
    lemma_decode_encoded(p);
}

/// The code units of a text with one more character are those of the text and
/// then those of the character.
pub proof fn lemma_utf16_encode_push(text: Seq<char>, c: char)
    ensures
        utf16_encode(text.push(c)) == utf16_encode(text) + utf16_units(c),
    decreases text.len(),
{
    let longer = text.push(c);
    assert(utf16_encode(longer) == utf16_units(longer.first()) + utf16_encode(
        longer.drop_first(),
    ));
    if text.len() == 0 {
        assert(longer.first() == c);
        assert(longer.drop_first() == Seq::<char>::empty());
        assert(utf16_encode(longer.drop_first()) == Seq::<u16>::empty());
        assert(utf16_encode(text) == Seq::<u16>::empty());
        assert(utf16_units(c) + Seq::<u16>::empty() == utf16_units(c));
        assert(Seq::<u16>::empty() + utf16_units(c) == utf16_units(c));
    } else {
        assert(longer.first() == text.first());
        assert(longer.drop_first() == text.drop_first().push(c));
        lemma_utf16_encode_push(text.drop_first(), c);
        assert(utf16_units(text.first()) + (utf16_encode(text.drop_first()) + utf16_units(c))
            == (utf16_units(text.first()) + utf16_encode(text.drop_first())) + utf16_units(c));
    }
}

/// The bytes of two runs of units are the bytes of the first and then those of
/// the second.
pub proof fn lemma_be_bytes_concat(a: Seq<u16>, b: Seq<u16>)
    ensures
        be_bytes(a + b) == be_bytes(a) + be_bytes(b),
{
    reveal(be_bytes);
    let whole = be_bytes(a + b);
    let parts = be_bytes(a) + be_bytes(b);
    assert(whole.len() == parts.len());
    assert forall|i: int| 0 <= i < whole.len() implies whole[i] == parts[i] by {
        if i < 2 * a.len() {
            assert((a + b)[i / 2] == a[i / 2]);
        } else {
            assert((a + b)[i / 2] == b[i / 2 - a.len()]);
            assert((i - 2 * a.len()) / 2 == i / 2 - a.len());
            assert((i - 2 * a.len()) % 2 == i % 2);
        }
    }
    assert(whole =~= parts);
}

/// The hexadecimal text of two runs of octets is that of the first and then
/// that of the second.
pub proof fn lemma_hex_of_octets_concat(a: Seq<u8>, b: Seq<u8>)
    ensures
        hex_of_octets(a + b) == hex_of_octets(a) + hex_of_octets(b),
    decreases b.len(),
{
    if b.len() == 0 {
        assert(a + b == a);
        assert(hex_of_octets(a) + Seq::<char>::empty() == hex_of_octets(a));
    } else {
        let whole = a + b;
        assert(whole.drop_last() == a + b.drop_last());
        assert(whole.last() == b.last());
        lemma_hex_of_octets_concat(a, b.drop_last());
        assert((hex_of_octets(a) + hex_of_octets(b.drop_last())) + hex_of_octet(b.last())
            == hex_of_octets(a) + (hex_of_octets(b.drop_last()) + hex_of_octet(b.last())));
    }
}

/// The hexadecimal text of one 16-bit unit: its high octet, then its low octet.
pub open spec fn hex_of_unit(u: u16) -> Seq<char> {
    hex_of_octet((u as int / 256) as u8) + hex_of_octet((u as int % 256) as u8)
}

/// The hexadecimal text of the code units of one character.
pub open spec fn hex_of_char(c: char) -> Seq<char> {
    let units: Seq<u16> = utf16_units(c);
    if units.len() == 1 {
        hex_of_unit(units[0])
    } else {
        hex_of_unit(units[0]) + hex_of_unit(units[1])
    }
}

proof fn lemma_hex_of_one_octet(b: u8)
    ensures
        hex_of_octets(seq![b]) == hex_of_octet(b),
{
    let one = seq![b];
    assert(one.drop_last() == Seq::<u8>::empty());
    assert(one.last() == b);
    assert(hex_of_octets(one.drop_last()) == Seq::<char>::empty());
    assert(Seq::<char>::empty() + hex_of_octet(b) == hex_of_octet(b));
}

proof fn lemma_hex_of_one_unit(u: u16)
    ensures
        hex_of_octets(be_bytes(seq![u])) == hex_of_unit(u),
{
    reveal(be_bytes);
    let bytes = be_bytes(seq![u]);
    let high: u8 = (u as int / 256) as u8;
    let low: u8 = (u as int % 256) as u8;
    assert(bytes[0] == high);
    assert(bytes[1] == low);
    assert(bytes =~= seq![high] + seq![low]);
    lemma_hex_of_octets_concat(seq![high], seq![low]);
    lemma_hex_of_one_octet(high);
    lemma_hex_of_one_octet(low);
}

proof fn lemma_hex_of_units(units: Seq<u16>)
    requires
        units.len() == 1 || units.len() == 2,
    ensures
        hex_of_octets(be_bytes(units)) == if units.len() == 1 {
            hex_of_unit(units[0])
        } else {
            hex_of_unit(units[0]) + hex_of_unit(units[1])
        },
{
    if units.len() == 1 {
        assert(units =~= seq![units[0]]);
        lemma_hex_of_one_unit(units[0]);
    } else {
        assert(units =~= seq![units[0]] + seq![units[1]]);
        lemma_be_bytes_concat(seq![units[0]], seq![units[1]]);
        lemma_hex_of_octets_concat(be_bytes(seq![units[0]]), be_bytes(seq![units[1]]));
        lemma_hex_of_one_unit(units[0]);
        lemma_hex_of_one_unit(units[1]);
    }
}

/// The user data of a text with one more character is that of the text and
/// then the hexadecimal text of the character.
pub proof fn lemma_ucs2_hex_push(text: Seq<char>, c: char)
    ensures
        ucs2_hex(text.push(c)) == ucs2_hex(text) + hex_of_char(c),
{
    lemma_utf16_encode_push(text, c);
    lemma_be_bytes_concat(utf16_encode(text), utf16_units(c));
    lemma_hex_of_octets_concat(be_bytes(utf16_encode(text)), be_bytes(utf16_units(c)));
    lemma_hex_of_units(utf16_units(c));
}

fn hex_digit_of(n: u8) -> (c: char)
    requires
        n < 16,
    ensures
        c == hex_upper_digit(n as int),
{
    if n < 10 {
        (0x30 + n) as char
    } else {
        (0x41 + n - 10) as char
    }
}

fn push_unit(out: &mut String, unit: u16)
    ensures
        final(out)@ == old(out)@ + hex_of_unit(unit),
{
    let high: u8 = (unit / 256) as u8;
    let low: u8 = (unit % 256) as u8;
    out.push(hex_digit_of(high / 16));
    out.push(hex_digit_of(high % 16));
    out.push(hex_digit_of(low / 16));
    out.push(hex_digit_of(low % 16));
    assert(final(out)@ =~= old(out)@ + hex_of_unit(unit));
}

/// Appends the hexadecimal text of the code units of `c` to `out`.
fn push_char(out: &mut String, c: char)
    ensures
        final(out)@ == old(out)@ + hex_of_char(c),
{
    let code: u32 = c as u32;
    if code < 0x10000 {
        let unit: u16 = code as u16;
        assert(utf16_units(c) =~= seq![unit]);
        push_unit(out, unit);
    } else {
        let offset: u32 = code - 0x10000;
        let high: u16 = (0xD800 + offset / 0x400) as u16;
        let low: u16 = (0xDC00 + offset % 0x400) as u16;
        assert(utf16_units(c) =~= seq![high, low]);
        push_unit(out, high);
        push_unit(out, low);
        assert(final(out)@ == old(out)@ + (hex_of_unit(high) + hex_of_unit(low)));
    }
}

/// Writes a text as the hexadecimal user data that carries it as UCS2.
pub fn encode_ucs2(text: &str) -> (hex: String)
    ensures
        hex@ == ucs2_hex(text@),
{
    let chars = chars_of(text);
    let mut hex = String::new();
    let mut i: usize = 0;
    proof {
        reveal(be_bytes);
        assert(chars@.take(0) == Seq::<char>::empty());
        assert(be_bytes(Seq::<u16>::empty()) =~= Seq::<u8>::empty());
    }
    while i < chars.len()
        invariant
            i <= chars.len(),
            chars@ == text@,
            hex@ == ucs2_hex(chars@.take(i as int)),
        decreases chars.len() - i,
    {
        let c: char = chars[i];
        proof {
            assert(chars@.take(i as int + 1) == chars@.take(i as int).push(c));
            lemma_ucs2_hex_push(chars@.take(i as int), c);
        }
        push_char(&mut hex, c);
        i += 1;
    }
    assert(chars@.take(chars.len() as int) == chars@);
    hex
}

/// Writes the digits of a number in nibble-swapped order: pair by pair, each
/// pair turned round, a last single digit filled up with `F`.
pub fn encode_bcd_number(digits: &str) -> (hex: String)
    ensures
        hex@ == bcd_encode(digits@),
{
    let d = chars_of(digits);
    let n: usize = d.len();
    let mut hex = String::new();
    let mut i: usize = 0;
    assert(d@.take(0) == Seq::<char>::empty());
    while n - i >= 2
        invariant
            i <= n == d.len(),
            i % 2 == 0,
            d@ == digits@,
            hex@ == bcd_encode(d@.take(i as int)),
        decreases n - i,
    {
        let ghost next = d@.take(i as int + 2);
        assert(next.take(next.len() - 2) == d@.take(i as int));
        hex.push(d[i + 1]);
        hex.push(d[i]);
        i += 2;
        assert(hex@ =~= bcd_encode(d@.take(i as int - 2)) + seq![next[next.len() - 1], next[next.len() - 2]]);
    }
    if i < n {
        assert(d@.drop_last() == d@.take(i as int));
        hex.push('F');
        hex.push(d[i]);
        assert(hex@ =~= bcd_encode(d@.take(i as int)) + seq!['F', d@.last()]);
    } else {
        assert(d@.take(i as int) == d@);
    }
    hex
}

} // verus!
