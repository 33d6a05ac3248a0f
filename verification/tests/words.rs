use geodns::numeral::{read_u16, read_u32, write_numeral};
use geodns::text::{chars_of, is_keyword, is_whitespace, split_ranges, word_ranges};

fn words(text: &str) -> Vec<String> {
    let cs = chars_of(text);
    word_ranges(&cs).iter().map(|(a, b)| cs[*a..*b].iter().collect()).collect()
}

fn fields(text: &str, sep: char) -> Vec<String> {
    let cs = chars_of(text);
    split_ranges(&cs, 0, cs.len(), sep).iter().map(|(a, b)| cs[*a..*b].iter().collect()).collect()
}

fn u32_of(text: &str) -> Option<u32> {
    let cs = chars_of(text);
    read_u32(&cs, 0, cs.len())
}

fn u16_of(text: &str) -> Option<u16> {
    let cs = chars_of(text);
    read_u16(&cs, 0, cs.len())
}

#[test]
fn whitespace_is_what_the_standard_library_says() {
    for n in 0u32..0x11_0000 {
        if let Some(c) = char::from_u32(n) {
            assert_eq!(is_whitespace(c), c.is_whitespace(), "U+{:04X}", n);
        }
    }
}

#[test]
fn words_are_split_as_the_standard_library_does() {
    for text in [
        "",
        " ",
        "a",
        " a",
        "a ",
        "a b",
        "  a \t b\n\nc  ",
        "10 20 5060 sip.example.com",
        "a\u{2003}b\u{3000}c",
        "a\u{200B}b",
    ] {
        let expected: Vec<String> = text.split_whitespace().map(String::from).collect();
        assert_eq!(words(text), expected, "{:?}", text);
    }
}

#[test]
fn fields_keep_empty_pieces() {
    assert_eq!(fields("", '.'), vec![""]);
    assert_eq!(fields("a", '.'), vec!["a"]);
    assert_eq!(fields("a.b", '.'), vec!["a", "b"]);
    assert_eq!(fields(".a..b.", '.'), vec!["", "a", "", "b", ""]);
    for text in ["", ":", "::", "1::2", ":1:", "a:b:c"] {
        let expected: Vec<String> = text.split(':').map(String::from).collect();
        assert_eq!(fields(text, ':'), expected, "{:?}", text);
    }
}

#[test]
fn unsigned_integers_are_read_as_the_standard_library_does() {
    for text in [
        "", "0", "7", "007", "+7", "+", "-7", "-0", "4294967295", "4294967296", "65535", "65536",
        "00000000000000000000000000065535", "99999999999999999999", "12a", "a12", " 12", "12 ",
        "++1", "1+", "٣",
    ] {
        assert_eq!(u32_of(text), text.parse::<u32>().ok(), "{:?}", text);
        assert_eq!(u16_of(text), text.parse::<u16>().ok(), "{:?}", text);
    }
}

#[test]
fn numbers_are_written_without_leading_zeros() {
    for (n, radix, expected) in [
        (0u32, 10u32, "0"),
        (7, 10, "7"),
        (10, 10, "10"),
        (255, 10, "255"),
        (4294967295, 10, "4294967295"),
        (0, 16, "0"),
        (10, 16, "a"),
        (255, 16, "ff"),
        (0xdb8, 16, "db8"),
        (0xffff, 16, "ffff"),
    ] {
        let mut out = String::from(">");
        write_numeral(&mut out, n, radix);
        assert_eq!(out, format!(">{}", expected));
    }
}

#[test]
fn keywords_match_without_regard_to_case() {
    let cs = chars_of("x Issue y");
    assert!(is_keyword(&cs, 2, 7, "issue"));
    assert!(!is_keyword(&cs, 2, 7, "issuewild"));
    assert!(!is_keyword(&cs, 2, 6, "issue"));
    assert!(!is_keyword(&cs, 0, 1, "issue"));
}
