use wezcmd::text::{
    char_is_ascii_alphanumeric, char_is_control, char_is_whitespace, chars_of, concat2,
    decimal_string, first_line_of, parse_u16_text, take_chars,
};

fn all_chars() -> impl Iterator<Item = char> {
    (0u32..=0x10ffff).filter_map(char::from_u32)
}

#[test]
fn character_classes_match_std() {
    for c in all_chars() {
        assert_eq!(char_is_control(c), c.is_control(), "{:?}", c);
        assert_eq!(char_is_whitespace(c), c.is_whitespace(), "{:?}", c);
        assert_eq!(char_is_ascii_alphanumeric(c), c.is_ascii_alphanumeric(), "{:?}", c);
    }
}

#[test]
fn decimal_matches_to_string() {
    for n in [0u64, 7, 9, 10, 99, 100, 1024, 8443, 65535, 4294967296, u64::MAX] {
        assert_eq!(decimal_string(n), n.to_string());
    }
}

#[test]
fn parse_matches_std() {
    let samples = [
        "", "+", "-", "0", "00", "+0", "-0", "1", "9090", "+9090", "09090", "65535", "65536",
        "70000", "000000000000065535", "99999999999999999999", "12a", " 1", "1 ", "++1", "+-1",
        "١٢", "8443",
    ];
    for s in samples {
        assert_eq!(parse_u16_text(s), s.parse::<u16>().ok(), "{:?}", s);
    }
    for n in 0u32..=70000 {
        let s = n.to_string();
        assert_eq!(parse_u16_text(&s), s.parse::<u16>().ok());
    }
}

#[test]
fn first_line_matches_std_lines() {
    let samples = [
        "", "\n", "\r\n", "a", "a\n", "a\r\n", "a\rb\n", "a\r", "line one\nline two", "\n\nx",
        "x\r\r\n", "ü\nß",
    ];
    for s in samples {
        assert_eq!(first_line_of(s), s.lines().next().map(|l| l.to_string()), "{:?}", s);
    }
}

#[test]
fn take_chars_matches_std() {
    for (s, n) in [("", 3), ("abc", 0), ("abc", 2), ("abc", 5), ("ééé", 2), ("a€b", 3)] {
        assert_eq!(take_chars(s, n), s.chars().take(n).collect::<String>());
    }
}

#[test]
fn chars_and_concat() {
    assert_eq!(chars_of("aé€"), vec!['a', 'é', '€']);
    assert_eq!(concat2("vscode://file", "/x"), "vscode://file/x");
}
