//! Decoder for SMS-DELIVER protocol data units given as hexadecimal text.
//!
//! One call decodes one PDU. A part of a concatenated message is reported with
//! its reference, the number of parts and its own number; putting the parts
//! together is left to the caller.
//!
//! A PDU is read character by character: two characters make an octet, one
//! character a semi-octet. Surrounding white space is dropped and ASCII letters
//! are read in upper case before anything else happens.

use crate::hex::{octet_at, octets_of, octets_of_range, read_octet};
use crate::text::{
    all_whitespace, ascii_upper_seq, char_ascii_upper, chars_of, lemma_trim_ignores_surrounding_space,
    lemma_trim_len, lemma_trim_of_upper, string_of_range, trim, trim_bounds,
};
use crate::utf16::{decode_utf16_be, ucs2_text};
use vstd::prelude::*;

verus! {

/// Why a PDU could not be decoded.
#[derive(Debug, Clone, Copy, PartialEq, Eq, Structural)]
pub enum DecodeError {
    /// The text ends before a field that has to be there.
    Truncated,
    /// The user data is no valid big-endian UTF-16 though the coding scheme asks for it.
    Encoding,
    /// An octet of the header that has to be read is not hexadecimal, or a
    /// concatenation element gives 0 as the number of parts.
    MalformedHeader,
}

/// A decoded message.
#[derive(Debug, Clone, PartialEq, Eq)]
pub struct PduDecodeResult {
    /// The digits of the originating address.
    pub sender: String,
    /// The text of the message.
    pub content: String,
    /// Whether the user data header marks this PDU as part of a concatenated message.
    pub is_multipart: bool,
    /// The reference shared by the parts of one message; 0 for a single PDU.
    pub reference: u8,
    /// The number of parts, at least 1; 1 for a single PDU.
    pub total_parts: u8,
    /// The number of this part; 1 for a single PDU.
    pub part_number: u8,
}

/// The same value under the name used for it elsewhere in the system.
pub type DecodedMessage = PduDecodeResult;

/// The mathematical content of a [`PduDecodeResult`].
pub struct DecodedView {
    pub sender: Seq<char>,
    pub content: Seq<char>,
    pub is_multipart: bool,
    pub reference: u8,
    pub total_parts: u8,
    pub part_number: u8,
}

impl View for PduDecodeResult {
    type V = DecodedView;

    open spec fn view(&self) -> DecodedView {
        DecodedView {
            sender: self.sender@,
            content: self.content@,
            is_multipart: self.is_multipart,
            reference: self.reference,
            total_parts: self.total_parts,
            part_number: self.part_number,
        }
    }
}

impl DecodedView {
    /// Every message has at least one part, and a message that is no part of a
    /// concatenation counts as part 1 of 1.
    pub open spec fn well_formed(self) -> bool {
        &&& self.total_parts >= 1
        &&& !self.is_multipart ==> self.reference == 0 && self.total_parts == 1
            && self.part_number == 1
    }
}

/// The PDU text as it is parsed: trimmed, ASCII letters in upper case.
pub open spec fn normalized(raw: Seq<char>) -> Seq<char> {
    ascii_upper_seq(trim(raw))
}

/// What one semi-octet of a BCD number contributes: its character, or nothing
/// where it is the filler `F`.
pub open spec fn bcd_nibble(c: char) -> Seq<char> {
    if c == 'F' || c == 'f' {
        Seq::empty()
    } else {
        seq![c]
    }
}

/// The digits of a nibble-swapped BCD number: of each pair of characters the
/// second comes first, fillers are dropped, and a last character without a
/// partner is ignored.
pub open spec fn bcd_digits(hex: Seq<char>) -> Seq<char>
    decreases hex.len(),
{
    if hex.len() < 2 {
        Seq::empty()
    } else if hex.len() % 2 == 1 {
        bcd_digits(hex.drop_last())
    } else {
        bcd_digits(hex.take(hex.len() - 2)) + bcd_nibble(hex[hex.len() - 1]) + bcd_nibble(
            hex[hex.len() - 2],
        )
    }
}

/// The text that hexadecimal user data holds as UCS2; `None` where a semi-octet is
/// left over, the number of octets is odd, or they are no valid UTF-16.
pub open spec fn ucs2_of_hex(data: Seq<char>) -> Option<Seq<char>> {
    if data.len() % 2 == 1 {
        None
    } else {
        ucs2_text(octets_of(data))
    }
}

/// Whether the data coding scheme asks for UCS2: bit 3 set, or the value 0.
pub open spec fn selects_ucs2(dcs: u8) -> bool {
    dcs & 0x08 != 0 || dcs == 0
}

/// The message text in user data `data` under coding scheme `dcs`. Every scheme
/// is read as UCS2. Where that fails, a scheme that selects UCS2 gives an error,
/// and any other scheme gives the hexadecimal text itself.
pub open spec fn user_text(dcs: u8, data: Seq<char>) -> Result<Seq<char>, DecodeError> {
    match ucs2_of_hex(data) {
        Some(t) => Ok(t),
        None => if selects_ucs2(dcs) {
            Err(DecodeError::Encoding)
        } else {
            Ok(data)
        },
    }
}

/// What the fixed part of a PDU says, and where the user data begins.
pub struct PduHeader {
    /// Bit 6 of the PDU type: a user data header is present.
    pub has_udh: bool,
    pub sender: Seq<char>,
    pub dcs: u8,
    /// The position after the user data length octet.
    pub body_start: int,
}

/// The number of characters that an address of `sender_len` semi-octets takes.
pub open spec fn sender_width(sender_len: u8) -> int {
    sender_len + sender_len % 2
}

/// The header of the normalized PDU text `s`: service centre address (skipped),
/// PDU type, originating address, protocol identifier (skipped), data coding
/// scheme, time stamp (skipped) and user data length (read, not used).
pub open spec fn parse_header(s: Seq<char>) -> Result<PduHeader, DecodeError> {
    if s.len() < 20 {
        Err(DecodeError::Truncated)
    } else if octet_at(s, 0) is None {
        Err(DecodeError::MalformedHeader)
    } else {
        let type_pos: int = 2 + 2 * octet_at(s, 0).unwrap();
        let sender_pos: int = type_pos + 6;
        if type_pos + 2 > s.len() {
            Err(DecodeError::Truncated)
        } else if octet_at(s, type_pos) is None {
            Err(DecodeError::MalformedHeader)
        } else if type_pos + 4 > s.len() {
            Err(DecodeError::Truncated)
        } else if octet_at(s, type_pos + 2) is None {
            Err(DecodeError::MalformedHeader)
        } else if sender_pos > s.len() {
            Err(DecodeError::Truncated)
        } else {
            let pid_pos: int = sender_pos + sender_width(octet_at(s, type_pos + 2).unwrap());
            let dcs_pos: int = pid_pos + 2;
            let udl_pos: int = dcs_pos + 16;
            if dcs_pos + 2 > s.len() {
                Err(DecodeError::Truncated)
            } else if octet_at(s, dcs_pos) is None {
                Err(DecodeError::MalformedHeader)
            } else if udl_pos + 2 > s.len() {
                Err(DecodeError::Truncated)
            } else if octet_at(s, udl_pos) is None {
                Err(DecodeError::MalformedHeader)
            } else {
                Ok(
                    PduHeader {
                        has_udh: octet_at(s, type_pos).unwrap() & 0x40 != 0,
                        sender: bcd_digits(s.subrange(sender_pos, pid_pos)),
                        dcs: octet_at(s, dcs_pos).unwrap(),
                        body_start: udl_pos + 2,
                    },
                )
            }
        }
    }
}

/// Where a PDU stands within a concatenated message.
pub struct Concatenation {
    pub is_multipart: bool,
    pub reference: u8,
    pub total_parts: u8,
    pub part_number: u8,
}

/// What a PDU without a concatenation element reports: part 1 of 1.
pub open spec fn single_part() -> Concatenation {
    Concatenation { is_multipart: false, reference: 0, total_parts: 1, part_number: 1 }
}

/// Whether the user data header at `pos`, `len` octets long, lies within `s` and
/// begins with the element for concatenated messages, `00 03`.
pub open spec fn has_concatenation_element(s: Seq<char>, pos: int, len: u8) -> bool {
    len >= 5 && pos + 2 * len <= s.len() && s.subrange(pos, pos + 4) == seq!['0', '0', '0', '3']
}

/// The user data header of `s`, if the PDU type announces one and an octet is
/// left for its length: the concatenation it reports and the position behind it.
/// A concatenation element is refused where one of its three octets is not
/// hexadecimal or its number of parts is 0.
pub open spec fn parse_user_data_header(s: Seq<char>, has_udh: bool, body_start: int) -> Result<
    (Concatenation, int),
    DecodeError,
> {
    if !has_udh || body_start + 2 > s.len() {
        Ok((single_part(), body_start))
    } else if octet_at(s, body_start) is None {
        Err(DecodeError::MalformedHeader)
    } else {
        let len: u8 = octet_at(s, body_start).unwrap();
        let pos: int = body_start + 2;
        if has_concatenation_element(s, pos, len) {
            if octet_at(s, pos + 4) is None || octet_at(s, pos + 6) is None || octet_at(s, pos + 8)
                is None || octet_at(s, pos + 6) == Some(0u8) {
                Err(DecodeError::MalformedHeader)
            } else {
                Ok(
                    (
                        Concatenation {
                            is_multipart: true,
                            reference: octet_at(s, pos + 4).unwrap(),
                            total_parts: octet_at(s, pos + 6).unwrap(),
                            part_number: octet_at(s, pos + 8).unwrap(),
                        },
                        pos + 2 * len,
                    ),
                )
            }
        } else {
            Ok((single_part(), pos + 2 * len))
        }
    }
}

/// The message in the normalized PDU text `s`.
pub open spec fn decode_normalized(s: Seq<char>) -> Result<DecodedView, DecodeError> {
    match parse_header(s) {
        Err(e) => Err(e),
        Ok(header) => match parse_user_data_header(s, header.has_udh, header.body_start) {
            Err(e) => Err(e),
            Ok((part, text_start)) => if text_start >= s.len() {
                Err(DecodeError::Truncated)
            } else {
                match user_text(header.dcs, s.subrange(text_start, s.len() as int)) {
                    Err(e) => Err(e),
                    Ok(content) => Ok(
                        DecodedView {
                            sender: header.sender,
                            content,
                            is_multipart: part.is_multipart,
                            reference: part.reference,
                            total_parts: part.total_parts,
                            part_number: part.part_number,
                        },
                    ),
                }
            },
        },
    }
}

/// The message in the PDU text `raw`, or the reason why there is none.
pub open spec fn decode_spec(raw: Seq<char>) -> Result<DecodedView, DecodeError> {
    decode_normalized(normalized(raw))
}

/// The mathematical content of what [`decode`] returns.
pub open spec fn decoded_view(r: Result<PduDecodeResult, DecodeError>) -> Result<
    DecodedView,
    DecodeError,
> {
    match r {
        Ok(m) => Ok(m@),
        Err(e) => Err(e),
    }
}

/// Whether `r` is what decoding the PDU text `raw` gives.
pub open spec fn is_decoding_of(raw: Seq<char>, r: Result<PduDecodeResult, DecodeError>) -> bool {
    decoded_view(r) == decode_spec(raw)
}

/// A PDU is read without regard to the case of its letters: two texts that
/// differ only in the case of ASCII letters decode alike.
pub proof fn lemma_decode_ignores_case(a: Seq<char>, b: Seq<char>)
    requires
        ascii_upper_seq(a) == ascii_upper_seq(b),
    ensures
        decode_spec(a) == decode_spec(b),
{
    lemma_trim_of_upper(a);
    lemma_trim_of_upper(b);
}

/// White space around a PDU text does not change what it decodes to.
pub proof fn lemma_decode_ignores_surrounding_space(
    before: Seq<char>,
    pdu: Seq<char>,
    after: Seq<char>,
)
    requires
        all_whitespace(before),
        all_whitespace(after),
    ensures
        decode_spec(before + pdu + after) == decode_spec(pdu),
{
    lemma_trim_ignores_surrounding_space(before, pdu, after);
}

/// A PDU text of fewer than 20 characters is refused as truncated.
pub proof fn lemma_short_pdu_is_truncated(raw: Seq<char>)
    requires
        raw.len() < 20,
    ensures
        decode_spec(raw) == Err::<DecodedView, DecodeError>(DecodeError::Truncated),
{
    lemma_trim_len(raw);
}

/// Decoding is a function of the PDU text: two results for the same text hold
/// the same message or the same error.
pub proof fn lemma_decode_is_deterministic(
    raw: Seq<char>,
    first: Result<PduDecodeResult, DecodeError>,
    second: Result<PduDecodeResult, DecodeError>,
)
    requires
        is_decoding_of(raw, first),
        is_decoding_of(raw, second),
    ensures
        decoded_view(first) == decoded_view(second),
{
}

/// A decoded message that is no part of a concatenation is part 1 of 1.
pub proof fn lemma_decoded_is_well_formed(raw: Seq<char>)
    ensures
        decode_spec(raw) matches Ok(m) ==> m.well_formed(),
{
}

/// Where the PDU type announces a user data header and that header begins with
/// the element `00 03`, a decoded message is marked as part of a concatenation
/// and reports the three octets that follow; and where the second of them, the
/// number of parts, is 0, there is no decoded message.
pub proof fn lemma_concatenation_is_reported(raw: Seq<char>)
    ensures
        ({
            let s = normalized(raw);
            (parse_header(s) matches Ok(h) && h.has_udh && h.body_start + 2 <= s.len() && (octet_at(
                s,
                h.body_start,
            ) matches Some(len) && has_concatenation_element(s, h.body_start + 2, len))) ==> ({
                let pos: int = parse_header(s)->Ok_0.body_start + 2;
                &&& decode_spec(raw) matches Ok(m) ==> {
                    &&& m.is_multipart
                    &&& m.total_parts >= 1
                    &&& Some(m.reference) == octet_at(s, pos + 4)
                    &&& Some(m.total_parts) == octet_at(s, pos + 6)
                    &&& Some(m.part_number) == octet_at(s, pos + 8)
                }
                &&& octet_at(s, pos + 6) == Some(0u8) ==> decode_spec(raw) == Err::<
                    DecodedView,
                    DecodeError,
                >(DecodeError::MalformedHeader)
            })
        }),
{
}

/// Brings a PDU string into the form in which it is parsed.
pub fn normalize(pdu_hex: &str) -> (s: Vec<char>)
    ensures
        s@ == normalized(pdu_hex@),
{
    let raw = chars_of(pdu_hex);
    let (from, to) = trim_bounds(&raw);
    let mut s: Vec<char> = Vec::new();
    let mut i: usize = from;
    while i < to
        invariant
            from <= i <= to <= raw.len(),
            s@ == ascii_upper_seq(raw@.subrange(from as int, i as int)),
        decreases to - i,
    {
        s.push(char_ascii_upper(raw[i]));
        i += 1;
        assert(s@ == ascii_upper_seq(raw@.subrange(from as int, i as int)));
    }
    s
}

/// The digits of the BCD number in `s[from..to]`.
fn bcd_of_range(s: &Vec<char>, from: usize, to: usize) -> (digits: String)
    requires
        from <= to <= s.len(),
    ensures
        digits@ == bcd_digits(s@.subrange(from as int, to as int)),
{
    let mut digits = String::new();
    let mut i: usize = from;
    while to - i >= 2
        invariant
            from <= i <= to <= s.len(),
            (i - from) % 2 == 0,
            digits@ == bcd_digits(s@.subrange(from as int, i as int)),
        decreases to - i,
    {
        let ghost next = s@.subrange(from as int, i as int + 2);
        assert(next.take(next.len() - 2) == s@.subrange(from as int, i as int));
        let first: char = s[i];
        let second: char = s[i + 1];
        if second != 'F' && second != 'f' {
            digits.push(second);
        }
        if first != 'F' && first != 'f' {
            digits.push(first);
        }
        i += 2;
        assert(digits@ == bcd_digits(next));
    }
    proof {
        let whole = s@.subrange(from as int, to as int);
        if i < to {
            assert(whole.drop_last() == s@.subrange(from as int, i as int));
        }
    }
    digits
}

/// Decodes a nibble-swapped BCD phone number: of each pair of characters the
/// second comes first, and the filler `F` is left out.
pub fn decode_bcd_number(hex: &str) -> (digits: String)
    ensures
        digits@ == bcd_digits(hex@),
{
    let s = chars_of(hex);
    assert(s@.subrange(0, s.len() as int) == s@);
    bcd_of_range(&s, 0, s.len())
}

/// The UCS2 text in the hexadecimal data `s[from..to]`.
fn ucs2_of_range(s: &Vec<char>, from: usize, to: usize) -> (r: Option<String>)
    requires
        from <= to <= s.len(),
    ensures
        crate::text::option_string_view(r) == ucs2_of_hex(s@.subrange(from as int, to as int)),
{
    if (to - from) % 2 == 1 {
        return None;
    }
    let bytes = octets_of_range(s, from, to);
    decode_utf16_be(&bytes)
}

/// Decodes hexadecimal text as big-endian UTF-16. Pairs of characters that spell
/// no octet are passed over.
pub fn decode_ucs2(hex: &str) -> (r: Result<String, DecodeError>)
    ensures
        match r {
            Ok(t) => ucs2_of_hex(hex@) == Some(t@),
            Err(e) => ucs2_of_hex(hex@) is None && e == DecodeError::Encoding,
        },
{
    let s = chars_of(hex);
    assert(s@.subrange(0, s.len() as int) == s@);
    match ucs2_of_range(&s, 0, s.len()) {
        Some(t) => Ok(t),
        None => Err(DecodeError::Encoding),
    }
}

/// The header as the executable decoder holds it.
struct Header {
    has_udh: bool,
    sender: String,
    dcs: u8,
    body_start: usize,
}

impl View for Header {
    type V = PduHeader;

    closed spec fn view(&self) -> PduHeader {
        PduHeader {
            has_udh: self.has_udh,
            sender: self.sender@,
            dcs: self.dcs,
            body_start: self.body_start as int,
        }
    }
}

fn read_header(s: &Vec<char>) -> (r: Result<Header, DecodeError>)
    ensures
        match r {
            Ok(h) => parse_header(s@) == Ok::<PduHeader, DecodeError>(h@) && h.body_start
                <= s.len(),
            Err(e) => parse_header(s@) == Err::<PduHeader, DecodeError>(e),
        },
{
    let n: usize = s.len();
    if n < 20 {
        return Err(DecodeError::Truncated);
    }
    let smsc_len: u8 = match read_octet(s, 0) {
        Some(v) => v,
        None => { return Err(DecodeError::MalformedHeader); },
    };
    let type_pos: usize = 2 + 2 * (smsc_len as usize);
    if n - 2 < type_pos {
        return Err(DecodeError::Truncated);
    }
    let pdu_type: u8 = match read_octet(s, type_pos) {
        Some(v) => v,
        None => { return Err(DecodeError::MalformedHeader); },
    };
    if n - 4 < type_pos {
        return Err(DecodeError::Truncated);
    }
    let sender_len: u8 = match read_octet(s, type_pos + 2) {
        Some(v) => v,
        None => { return Err(DecodeError::MalformedHeader); },
    };
    if n - 6 < type_pos {
        return Err(DecodeError::Truncated);
    }
    let sender_pos: usize = type_pos + 6;
    let width: usize = (sender_len as usize) + (sender_len as usize) % 2;
    if n - sender_pos < width || n - sender_pos - width < 4 {
        return Err(DecodeError::Truncated);
    }
    let pid_pos: usize = sender_pos + width;
    let dcs_pos: usize = pid_pos + 2;
    let sender = bcd_of_range(s, sender_pos, pid_pos);
    let dcs: u8 = match read_octet(s, dcs_pos) {
        Some(v) => v,
        None => { return Err(DecodeError::MalformedHeader); },
    };
    if n - dcs_pos < 18 {
        return Err(DecodeError::Truncated);
    }
    let udl_pos: usize = dcs_pos + 16;
    match read_octet(s, udl_pos) {
        Some(_) => {},
        None => { return Err(DecodeError::MalformedHeader); },
    }
    Ok(Header { has_udh: pdu_type & 0x40 != 0, sender, dcs, body_start: udl_pos + 2 })
}

/// The smaller of `pos` and the length of `s`.
spec fn clipped(s: Seq<char>, pos: int) -> int {
    if pos <= s.len() {
        pos
    } else {
        s.len() as int
    }
}

fn read_user_data_header(s: &Vec<char>, has_udh: bool, body_start: usize) -> (r: Result<
    (Concatenation, usize),
    DecodeError,
>)
    requires
        body_start <= s.len(),
    ensures
        match r {
            Ok((part, start)) => match parse_user_data_header(s@, has_udh, body_start as int) {
                Ok((p, t)) => part == p && start == clipped(s@, t),
                Err(_) => false,
            },
            Err(e) => parse_user_data_header(s@, has_udh, body_start as int) == Err::<
                (Concatenation, int),
                DecodeError,
            >(e),
        },
{
    let n: usize = s.len();
    let single = Concatenation { is_multipart: false, reference: 0, total_parts: 1, part_number: 1 };
    if !has_udh || n - body_start < 2 {
        return Ok((single, body_start));
    }
    let len: u8 = match read_octet(s, body_start) {
        Some(v) => v,
        None => { return Err(DecodeError::MalformedHeader); },
    };
    let pos: usize = body_start + 2;
    let skip: usize = 2 * (len as usize);
    let fits: bool = skip <= n - pos;
    let start: usize = if fits {
        pos + skip
    } else {
        n
    };
    if len >= 5 && fits && s[pos] == '0' && s[pos + 1] == '0' && s[pos + 2] == '0' && s[pos + 3]
        == '3' {
        assert(s@.subrange(pos as int, pos + 4) == seq!['0', '0', '0', '3']);
        let reference: u8 = match read_octet(s, pos + 4) {
            Some(v) => v,
            None => { return Err(DecodeError::MalformedHeader); },
        };
        let total_parts: u8 = match read_octet(s, pos + 6) {
            Some(v) => v,
            None => { return Err(DecodeError::MalformedHeader); },
        };
        let part_number: u8 = match read_octet(s, pos + 8) {
            Some(v) => v,
            None => { return Err(DecodeError::MalformedHeader); },
        };
        if total_parts == 0 {
            return Err(DecodeError::MalformedHeader);
        }
        Ok((Concatenation { is_multipart: true, reference, total_parts, part_number }, start))
    } else {
        proof {
            if len >= 5 && fits {
                let head = s@.subrange(pos as int, pos + 4);
                assert(head[0] == s@[pos as int]);
                assert(head[1] == s@[pos + 1]);
                assert(head[2] == s@[pos + 2]);
                assert(head[3] == s@[pos + 3]);
            }
        }
        Ok((single, start))
    }
}

/// Decodes the normalized PDU text `s`.
fn decode_chars(s: &Vec<char>) -> (r: Result<PduDecodeResult, DecodeError>)
    ensures
        decoded_view(r) == decode_normalized(s@),
{
    let header = read_header(s)?;
    let (part, text_start) = read_user_data_header(s, header.has_udh, header.body_start)?;
    if text_start >= s.len() {
        return Err(DecodeError::Truncated);
    }
    let content: String = match ucs2_of_range(s, text_start, s.len()) {
        Some(t) => t,
        None => {
            if header.dcs & 0x08 != 0 || header.dcs == 0 {
                return Err(DecodeError::Encoding);
            }
            string_of_range(s, text_start, s.len())
        },
    };
    Ok(
        PduDecodeResult {
            sender: header.sender,
            content,
            is_multipart: part.is_multipart,
            reference: part.reference,
            total_parts: part.total_parts,
            part_number: part.part_number,
        },
    )
}

/// Decodes one SMS-DELIVER PDU given as hexadecimal text.
///
/// The text is trimmed and read without regard to the case of its letters. The
/// service centre address, the type of the originating address, the protocol
/// identifier and the time stamp are passed over; the user data length is read
/// but the text is taken to run to the end of the input. A user data header is
/// skipped whole, and where it begins with the concatenation element `00 03`
/// the three octets after it are reported.
///
/// Errors: [`DecodeError::Truncated`] where the input is shorter than 20
/// characters, ends before a field of the header, or holds no user data;
/// [`DecodeError::MalformedHeader`] where an octet that has to be read is not
/// hexadecimal, or the concatenation element gives 0 as the number of parts;
/// [`DecodeError::Encoding`] where the coding scheme selects UCS2 and the user
/// data is no valid UCS2.
pub fn decode(pdu_hex: &str) -> (r: Result<PduDecodeResult, DecodeError>)
    ensures
        is_decoding_of(pdu_hex@, r),
        pdu_hex@.len() < 20 ==> r == Err::<PduDecodeResult, DecodeError>(DecodeError::Truncated),
        r matches Ok(m) ==> m@.well_formed(),
{
    proof {
        if pdu_hex@.len() < 20 {
            lemma_short_pdu_is_truncated(pdu_hex@);
        }
    }
    let s = normalize(pdu_hex);
    decode_chars(&s)
}

/// Decodes one PDU as [`decode`] does, without saying why a PDU was refused.
pub fn decode_pdu_full(pdu_hex: &str) -> (r: Option<PduDecodeResult>)
    ensures
        match r {
            Some(m) => decode_spec(pdu_hex@) == Ok::<DecodedView, DecodeError>(m@),
            None => decode_spec(pdu_hex@) is Err,
        },
        r matches Some(m) ==> m@.well_formed(),
{
    match decode(pdu_hex) {
        Ok(m) => Some(m),
        Err(_) => None,
    }
}

/// The sender and the text of one PDU, or `None` where [`decode`] refuses it.
pub fn decode_pdu_simple(pdu_hex: &str) -> (r: Option<(String, String)>)
    ensures
        match r {
            Some((sender, content)) => decode_spec(pdu_hex@) is Ok && sender@ == decode_spec(
                pdu_hex@,
            )->Ok_0.sender && content@ == decode_spec(pdu_hex@)->Ok_0.content,
            None => decode_spec(pdu_hex@) is Err,
        },
{
    let result = decode_pdu_full(pdu_hex)?;
    Some((result.sender, result.content))
}

} // verus!
