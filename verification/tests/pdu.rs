use udx710_backend::pdu_encode::{encode_bcd_number, encode_ucs2};
use udx710_backend::pdu::{
    decode, decode_bcd_number, decode_pdu_full, decode_pdu_simple, decode_ucs2, DecodeError,
    PduDecodeResult,
};

/// SMSC absent, sender +1234567890, DCS 08, text "Hi".
const SINGLE: &str = "00040A91214365870900082201231200000004";

fn single_pdu() -> String {
    format!("{}{}", SINGLE, "00480069")
}

#[test]
fn bcd_swaps_nibbles_and_drops_filler() {
    assert_eq!(decode_bcd_number("21436587F0"), "123456780");
    assert_eq!(decode_bcd_number("2143658709"), "1234567890");
    assert_eq!(decode_bcd_number("214365F7"), "1234567");
}

#[test]
fn bcd_edge_cases() {
    assert_eq!(decode_bcd_number(""), "");
    assert_eq!(decode_bcd_number("1"), "");
    assert_eq!(decode_bcd_number("123"), "21");
    assert_eq!(decode_bcd_number("fF"), "");
    assert_eq!(decode_bcd_number("f1"), "1");
}

#[test]
fn ucs2_decodes_basic_plane_and_surrogates() {
    assert_eq!(decode_ucs2("00480069"), Ok("Hi".to_string()));
    assert_eq!(decode_ucs2("4F60597D"), Ok("你好".to_string()));
    assert_eq!(decode_ucs2("D83DDE00"), Ok("😀".to_string()));
    assert_eq!(decode_ucs2(""), Ok(String::new()));
}

#[test]
fn ucs2_refuses_broken_input() {
    assert_eq!(decode_ucs2("004"), Err(DecodeError::Encoding));
    assert_eq!(decode_ucs2("00480"), Err(DecodeError::Encoding));
    assert_eq!(decode_ucs2("004800"), Err(DecodeError::Encoding));
    assert_eq!(decode_ucs2("D83D0041"), Err(DecodeError::Encoding));
    assert_eq!(decode_ucs2("DE00"), Err(DecodeError::Encoding));
    assert_eq!(decode_ucs2("D83D"), Err(DecodeError::Encoding));
}

#[test]
fn ucs2_passes_over_pairs_that_spell_no_octet() {
    assert_eq!(decode_ucs2("00ZZ48"), Ok("H".to_string()));
    assert_eq!(decode_ucs2("+048"), Ok("H".to_string()));
    assert_eq!(decode_ucs2("0048 0"), Ok("H".to_string()));
    assert_eq!(decode_ucs2("-048"), Err(DecodeError::Encoding));
    assert_eq!(decode_ucs2("+0+A"), Ok("\n".to_string()));
}

#[test]
fn decode_single_part_ucs2() {
    let m = decode(&single_pdu()).unwrap();
    assert_eq!(
        m,
        PduDecodeResult {
            sender: "1234567890".to_string(),
            content: "Hi".to_string(),
            is_multipart: false,
            reference: 0,
            total_parts: 1,
            part_number: 1,
        }
    );
}

#[test]
fn decode_is_case_insensitive_and_trims() {
    let lower = format!("  \t{}\r\n", "00040a91214365870900082201231200000004d83dde00");
    let m = decode(&lower).unwrap();
    assert_eq!(m.sender, "1234567890");
    assert_eq!(m.content, "😀");
}

#[test]
fn decode_skips_service_centre_address() {
    let pdu = format!("07913144210043F5{}", &single_pdu()[2..]);
    let m = decode(&pdu).unwrap();
    assert_eq!(m.sender, "1234567890");
    assert_eq!(m.content, "Hi");
}

#[test]
fn decode_odd_sender_length_drops_padding() {
    let pdu = "00040991214365870F00082201231200000004".to_string() + "00480069";
    let m = decode(&pdu).unwrap();
    assert_eq!(m.sender, "123456780");
}

#[test]
fn decode_concatenated_part() {
    let pdu = "00440A91214365870900082201231200000010".to_string() + "050003A70302" + "00480069";
    let m = decode(&pdu).unwrap();
    assert!(m.is_multipart);
    assert_eq!(m.reference, 0xA7);
    assert_eq!(m.total_parts, 3);
    assert_eq!(m.part_number, 2);
    assert_eq!(m.content, "Hi");
    assert_eq!(m.sender, "1234567890");
}

#[test]
fn decode_other_user_data_header_is_skipped() {
    let pdu = "00440A91214365870900082201231200000010".to_string() + "06080400A70302" + "00480069";
    let m = decode(&pdu).unwrap();
    assert!(!m.is_multipart);
    assert_eq!((m.reference, m.total_parts, m.part_number), (0, 1, 1));
    assert_eq!(m.content, "Hi");
}

#[test]
fn decode_short_header_with_concatenation_marker_is_not_multipart() {
    let pdu = "00440A91214365870900082201231200000010".to_string() + "04000301" + "00" + "00480069";
    let m = decode(&pdu).unwrap();
    assert!(!m.is_multipart);
    assert_eq!(m.content, "Hi");
}

#[test]
fn decode_short_input_is_truncated() {
    assert_eq!(decode(""), Err(DecodeError::Truncated));
    assert_eq!(decode("0004"), Err(DecodeError::Truncated));
    assert_eq!(decode("ZZZZZZZZZZZZZZZZZZZ"), Err(DecodeError::Truncated));
    assert_eq!(decode("   00040A9121436587   "), Err(DecodeError::Truncated));
}

#[test]
fn decode_truncated_fields() {
    let full = single_pdu();
    for cut in 20..full.len() - 8 {
        assert_eq!(decode(&full[..cut]), Err(DecodeError::Truncated), "cut at {}", cut);
    }
    assert_eq!(decode(&full[..full.len() - 8]), Err(DecodeError::Truncated));
    assert_eq!(decode("FF040A91214365870900082201231200000004"), Err(DecodeError::Truncated));
}

#[test]
fn decode_malformed_header() {
    let good = single_pdu();
    let swap = |at: usize| {
        let mut s = good.clone().into_bytes();
        s[at] = b'Z';
        String::from_utf8(s).unwrap()
    };
    assert_eq!(decode(&swap(0)), Err(DecodeError::MalformedHeader));
    assert_eq!(decode(&swap(2)), Err(DecodeError::MalformedHeader));
    assert_eq!(decode(&swap(4)), Err(DecodeError::MalformedHeader));
    assert_eq!(decode(&swap(20)), Err(DecodeError::MalformedHeader));
    assert_eq!(decode(&swap(36)), Err(DecodeError::MalformedHeader));
    let multi = "00440A91214365870900082201231200000010".to_string() + "050003ZZ0302" + "00480069";
    assert_eq!(decode(&multi), Err(DecodeError::MalformedHeader));
    let udh_len = "00440A91214365870900082201231200000010".to_string() + "Z50003A70302" + "00480069";
    assert_eq!(decode(&udh_len), Err(DecodeError::MalformedHeader));
}

#[test]
fn decode_skipped_fields_are_not_read() {
    let good = single_pdu();
    let mut s = good.clone().into_bytes();
    s[6] = b'Z';
    s[18] = b'Z';
    s[22] = b'Z';
    let m = decode(&String::from_utf8(s).unwrap()).unwrap();
    assert_eq!(m.content, "Hi");
}

#[test]
fn decode_encoding_policy() {
    let head = |dcs: &str| format!("00040A912143658709{}{}2201231200000004", "00", dcs);
    assert_eq!(decode(&(head("08") + "D83D0041")), Err(DecodeError::Encoding));
    assert_eq!(decode(&(head("00") + "D83D0041")), Err(DecodeError::Encoding));
    assert_eq!(decode(&(head("18") + "004800")), Err(DecodeError::Encoding));
    assert_eq!(decode(&(head("04") + "D83D0041")).unwrap().content, "D83D0041");
    assert_eq!(decode(&(head("f1") + "c8329bfd06")).unwrap().content, "C8329BFD06");
    assert_eq!(decode(&(head("04") + "00480069")).unwrap().content, "Hi");
    assert_eq!(decode(&(head("10") + "0048006")).unwrap().content, "0048006");
}

#[test]
fn decode_twice_gives_the_same() {
    let pdu = single_pdu();
    assert_eq!(decode(&pdu), decode(&pdu));
    assert_eq!(decode("00"), decode("00"));
}

#[test]
fn decode_full_and_simple_follow_decode() {
    let pdu = single_pdu();
    assert_eq!(decode_pdu_full(&pdu), decode(&pdu).ok());
    assert_eq!(decode_pdu_simple(&pdu), Some(("1234567890".to_string(), "Hi".to_string())));
    assert_eq!(decode_pdu_full("0004"), None);
    assert_eq!(decode_pdu_simple("0004"), None);
}

#[test]
fn bcd_numbers_are_written_pair_by_pair() {
    assert_eq!(encode_bcd_number("1234567890"), "2143658709");
    assert_eq!(encode_bcd_number("123456780"), "21436587F0");
    assert_eq!(encode_bcd_number(""), "");
    assert_eq!(encode_bcd_number("7"), "F7");
    assert_eq!(encode_bcd_number("4915112345678"), "945111325476F8");
}

#[test]
fn ucs2_is_written_high_octet_first() {
    assert_eq!(encode_ucs2("Hi"), "00480069");
    assert_eq!(encode_ucs2("你好"), "4F60597D");
    assert_eq!(encode_ucs2("😀"), "D83DDE00");
    assert_eq!(encode_ucs2(""), "");
    assert_eq!(encode_ucs2("\u{ffff}\u{10000}\u{10ffff}"), "FFFFD800DC00DBFFDFFF");
}

#[test]
fn written_fields_are_read_back() {
    for digits in ["", "0", "12", "123", "4915112345678", "00000", "1A2B3C4D5E"] {
        assert_eq!(decode_bcd_number(&encode_bcd_number(digits)), digits);
    }
    for text in ["", "a", "Hello, world!", "Grüße", "你好，世界", "😀👍🏽", "\u{0}\u{d7ff}\u{e000}"] {
        assert_eq!(decode_ucs2(&encode_ucs2(text)), Ok(text.to_string()));
    }
}

/// The PDU of a message from `sender` with `text`, with or without a
/// concatenation header.
fn build_pdu(smsc: &str, sender: &str, dcs: u8, text: &str, part: Option<(u8, u8, u8)>) -> String {
    let mut pdu = format!("{:02X}{}", smsc.len() / 2, smsc);
    pdu += if part.is_some() { "44" } else { "04" };
    pdu += &format!("{:02X}91{}", sender.len(), encode_bcd_number(sender));
    pdu += &format!("00{:02X}52208041627300", dcs);
    let body = encode_ucs2(text);
    let header = match part {
        Some((reference, total, number)) => {
            format!("050003{:02X}{:02X}{:02X}", reference, total, number)
        }
        None => String::new(),
    };
    pdu += &format!("{:02X}{}{}", (header.len() + body.len()) / 2, header, body);
    pdu
}

#[test]
fn single_part_pdus_give_back_sender_and_text() {
    let senders = ["1", "12", "4915112345678", "8613800138000", "1234567890123456789"];
    let texts = ["x", "Hello", "你好，世界", "😀 ok", "line one\nline two"];
    let centres = ["", "91947122720000", "81"];
    for sender in senders {
        for text in texts {
            for smsc in centres {
                for dcs in [0x08u8, 0x18, 0x00, 0x04, 0xF1] {
                    let pdu = build_pdu(smsc, sender, dcs, text, None);
                    let expected = PduDecodeResult {
                        sender: sender.to_string(),
                        content: text.to_string(),
                        is_multipart: false,
                        reference: 0,
                        total_parts: 1,
                        part_number: 1,
                    };
                    assert_eq!(decode(&pdu), Ok(expected.clone()), "{}", pdu);
                    assert_eq!(decode(&pdu.to_lowercase()), Ok(expected), "{}", pdu);
                }
            }
        }
    }
}

#[test]
fn concatenated_pdus_report_their_place() {
    for (reference, total, number) in [(0u8, 1u8, 0u8), (1, 2, 1), (0xA7, 3, 2), (255, 255, 255)] {
        let pdu = build_pdu("", "4915112345678", 0x08, "part", Some((reference, total, number)));
        let m = decode(&pdu).unwrap();
        assert!(m.is_multipart);
        assert_eq!((m.reference, m.total_parts, m.part_number), (reference, total, number));
        assert_eq!(m.content, "part");
        assert_eq!(m.sender, "4915112345678");
    }
}

#[test]
fn concatenation_without_parts_is_refused() {
    for (reference, number) in [(0u8, 0u8), (0xA7, 1), (255, 255)] {
        let pdu = build_pdu("", "4915112345678", 0x08, "part", Some((reference, 0, number)));
        assert_eq!(decode(&pdu), Err(DecodeError::MalformedHeader), "{}", pdu);
        assert_eq!(decode_pdu_full(&pdu), None);
        assert_eq!(decode_pdu_simple(&pdu), None);
    }
    let literal = "00440A91214365870900082201231200000010".to_string() + "050003A70002" + "00480069";
    assert_eq!(decode(&literal), Err(DecodeError::MalformedHeader));
}

#[test]
fn every_decoded_message_has_a_part() {
    let pdus = [
        single_pdu(),
        build_pdu("", "1", 0x08, "x", Some((9, 1, 1))),
        build_pdu("", "1", 0x04, "x", Some((9, 200, 0))),
        "00440A91214365870900082201231200000010".to_string() + "06080400A70302" + "00480069",
    ];
    for pdu in pdus {
        let m = decode(&pdu).unwrap();
        assert!(m.total_parts >= 1, "{}", pdu);
        if !m.is_multipart {
            assert_eq!((m.reference, m.total_parts, m.part_number), (0, 1, 1));
        }
    }
}
