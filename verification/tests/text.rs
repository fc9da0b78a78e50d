use udx710_backend::decimal::{parse_u32, push_decimal};
use udx710_backend::hex::{hex_digit_value, octets_of_range, parse_octet};
use udx710_backend::pdu::normalize;
use udx710_backend::text::{
    char_is_whitespace, chars_of, line_bounds, range_starts_with, split_range, str_eq,
    string_of, string_of_range, trim_bounds, trim_range,
};
use udx710_backend::utf16::decode_utf16_be;

fn pieces(s: &str, sep: char) -> Vec<String> {
    let v = chars_of(s);
    split_range(&v, 0, v.len(), sep).iter().map(|&(a, b)| string_of_range(&v, a, b)).collect()
}

fn lines(s: &str) -> Vec<String> {
    let v = chars_of(s);
    line_bounds(&v).iter().map(|&(a, b)| string_of_range(&v, a, b)).collect()
}

fn trimmed(s: &str) -> String {
    let v = chars_of(s);
    let (a, b) = trim_bounds(&v);
    string_of_range(&v, a, b)
}

#[test]
fn chars_and_back() {
    for s in ["", "abc", "héllo wörld", "你好😀"] {
        let v = chars_of(s);
        assert_eq!(v, s.chars().collect::<Vec<char>>());
        assert_eq!(string_of(&v), s);
    }
    let v = chars_of("hello");
    assert_eq!(string_of_range(&v, 1, 3), "el");
    assert_eq!(string_of_range(&v, 5, 5), "");
    assert!(str_eq("a", "a") && !str_eq("a", "b") && !str_eq("a", "ab") && str_eq("", ""));
}

#[test]
fn whitespace_is_what_std_calls_whitespace() {
    for u in 0..=0x10FFFFu32 {
        if let Some(c) = char::from_u32(u) {
            assert_eq!(char_is_whitespace(c), c.is_whitespace(), "U+{:04X}", u);
        }
    }
}

#[test]
fn trim_agrees_with_std() {
    for s in ["", " ", "a", "  a b  ", "\t\r\n x\u{3000}", "\u{a0}\u{2003}", "x \u{200b}"] {
        assert_eq!(trimmed(s), s.trim());
    }
    let v = chars_of("ab  cd  ef");
    assert_eq!(trim_range(&v, 2, 8), (4, 6));
    assert_eq!(trim_range(&v, 2, 4), (4, 4));
}

#[test]
fn split_agrees_with_std() {
    for s in ["", "a", "a.b", ".a", "a.", "..", "1.2.3", "a..b"] {
        assert_eq!(pieces(s, '.'), s.split('.').map(|p| p.to_string()).collect::<Vec<_>>());
    }
}

#[test]
fn lines_agree_with_std() {
    for s in ["", "\n", "a", "a\n", "a\nb", "a\r\nb\r\n", "a\r", "a\r\n\r\n", "\r\n", "a\n\nb", "a\r\r\nb", "\r"] {
        assert_eq!(lines(s), s.lines().map(|p| p.to_string()).collect::<Vec<_>>(), "{:?}", s);
    }
}

#[test]
fn prefix_of_a_range() {
    let v = chars_of("xx+SPF: 1");
    assert!(range_starts_with(&v, 2, 9, &chars_of("+SPF")));
    assert!(range_starts_with(&v, 2, 9, &chars_of("")));
    assert!(!range_starts_with(&v, 2, 5, &chars_of("+SPF")));
    assert!(!range_starts_with(&v, 0, 9, &chars_of("+SPF")));
    assert!(range_starts_with(&v, 2, 6, &chars_of("+SPF")));
}

#[test]
fn decimal_digits_are_written_without_leading_zeros() {
    for n in [0u64, 1, 9, 10, 11, 99, 100, 255, 65535, 4294967295, u64::MAX] {
        let mut s = String::from(">");
        push_decimal(&mut s, n);
        assert_eq!(s, format!(">{}", n));
    }
}

#[test]
fn unsigned_numbers_are_read_as_std_reads_them() {
    for s in ["0", "7", "007", "+7", "+", "", "-7", "7 ", " 7", "4294967295", "4294967296", "65535", "65536", "1e3", "++1", "99999999999999999999999", "٣"] {
        assert_eq!(parse_u32(s), s.parse::<u32>().ok(), "{:?}", s);
    }
}

#[test]
fn octets_are_read_as_std_reads_them() {
    let all: Vec<char> = (0x20u8..0x7f).map(|b| b as char).collect();
    for &a in &all {
        for &b in &all {
            let text: String = [a, b].iter().collect();
            assert_eq!(parse_octet(a, b), u8::from_str_radix(&text, 16).ok(), "{:?}", text);
        }
    }
    assert_eq!(hex_digit_value('f'), Some(15));
    assert_eq!(hex_digit_value('G'), None);
    assert_eq!(hex_digit_value('٣'), None);
}

#[test]
fn octets_of_a_range() {
    let v = chars_of("xx0aFFzz10");
    assert_eq!(octets_of_range(&v, 2, 10), vec![0x0a, 0xff, 0x10]);
    assert_eq!(octets_of_range(&v, 2, 2), Vec::<u8>::new());
    assert_eq!(octets_of_range(&v, 2, 5), vec![0x0a]);
    assert_eq!(octets_of_range(&v, 3, 4), Vec::<u8>::new());
    assert_eq!(octets_of_range(&v, 3, 10), vec![0xaf]);
}

#[test]
fn utf16_agrees_with_std() {
    let cases: Vec<Vec<u16>> = vec![
        vec![],
        vec![0x48, 0x69],
        vec![0xD83D, 0xDE00],
        vec![0xD83D],
        vec![0xDE00, 0xD83D],
        vec![0xD7FF, 0xE000, 0xFFFF],
        vec![0xDBFF, 0xDFFF],
        vec![0xD800, 0xDC00, 0x41],
        vec![0xD800, 0xD800, 0xDC00],
    ];
    for units in cases {
        let bytes: Vec<u8> = units.iter().flat_map(|u| u.to_be_bytes()).collect();
        assert_eq!(decode_utf16_be(&bytes), String::from_utf16(&units).ok(), "{:?}", units);
    }
    assert_eq!(decode_utf16_be(&vec![0x00]), None);
    assert_eq!(decode_utf16_be(&vec![0x00, 0x48, 0x00]), None);
}

#[test]
fn normalize_trims_and_raises_ascii_letters() {
    assert_eq!(string_of(&normalize("  0a1b cd\n")), "0A1B CD");
    assert_eq!(string_of(&normalize("ßé")), "ßé");
    assert_eq!(string_of(&normalize("")), "");
}
