use beam_tunnel::count::raised;
use beam_tunnel::net::{parse_ipv4_text, push_addr, push_ipv4, PeerAddr};
use beam_tunnel::text::{
    chars_of, contains, ends_with, find_char, find_from, find_kind, find_word, matches_at,
    parse_number, push_decimal, push_text, same_text, starts_with, string_of, text_is,
    trim_bounds,
};

fn c(s: &str) -> Vec<char> {
    chars_of(s)
}

#[test]
fn characters_and_back() {
    assert_eq!(chars_of("a\u{e9}\u{1F600}"), vec!['a', '\u{e9}', '\u{1F600}']);
    assert_eq!(chars_of(""), Vec::<char>::new());
    assert_eq!(string_of(&['x', '\u{df}']), "x\u{df}");
    for text in ["", "hello", "gr\u{fc}n", "\u{1F600}\u{1F601}"] {
        assert_eq!(string_of(&chars_of(text)), text);
    }
}

#[test]
fn building_text() {
    let mut out = c("ab");
    push_text(&mut out, "cd");
    push_text(&mut out, "");
    push_decimal(&mut out, 0);
    push_decimal(&mut out, 907);
    assert_eq!(string_of(&out), "abcd0907");
    let mut n = Vec::new();
    push_decimal(&mut n, u64::MAX);
    assert_eq!(string_of(&n), "18446744073709551615");
}

#[test]
fn searching() {
    let hay = c("abcabc");
    assert!(matches_at(&hay, &c("abc"), 0));
    assert!(matches_at(&hay, &c("abc"), 3));
    assert!(!matches_at(&hay, &c("abc"), 1));
    assert!(!matches_at(&hay, &c("abc"), 4));
    assert!(matches_at(&hay, &c(""), 6));
    assert!(!matches_at(&hay, &c(""), 7));
    assert!(contains(&hay, &c("ca")));
    assert!(contains(&hay, &c("")));
    assert!(contains(&c(""), &c("")));
    assert!(!contains(&hay, &c("cb")));
    assert!(!contains(&c("ab"), &c("abc")));
    assert!(starts_with(&hay, &c("abca")));
    assert!(!starts_with(&hay, &c("bc")));
    assert!(ends_with(&hay, &c("cabc")));
    assert!(ends_with(&hay, &c("")));
    assert!(!ends_with(&hay, &c("ab")));
    assert!(!ends_with(&c("c"), &c("bc")));
    assert!(same_text(&hay, &c("abcabc")));
    assert!(!same_text(&hay, &c("abcab")));
    assert!(!same_text(&hay, &c("abcabd")));
    assert!(text_is("x", "x"));
    assert!(!text_is("x", "X"));
    assert_eq!(find_from(&hay, &c("bc"), 0), Some(1));
    assert_eq!(find_from(&hay, &c("bc"), 2), Some(4));
    assert_eq!(find_from(&hay, &c("bc"), 5), None);
    assert_eq!(find_from(&hay, &c(""), 6), Some(6));
    assert_eq!(find_from(&hay, &c(""), 7), None);
    assert_eq!(find_char(&hay, 'c', 0), 2);
    assert_eq!(find_char(&hay, 'c', 3), 5);
    assert_eq!(find_char(&hay, 'z', 0), 6);
    assert_eq!(find_char(&hay, 'a', 9), 6);
}

#[test]
fn trimming_and_words() {
    let s = c("  \t a b \u{a0}\r\n");
    assert_eq!(trim_bounds(&s), (4, 7));
    assert_eq!(trim_bounds(&s[..3]), (3, 3));
    assert_eq!(trim_bounds(&s[4..5]), (0, 1));
    assert_eq!(trim_bounds(&[]), (0, 0));
    assert_eq!(find_kind(&s, false, 0), 4);
    assert_eq!(find_kind(&s, true, 4), 5);
    assert_eq!(find_kind(&s, false, 7), s.len());
    assert_eq!(find_word(&s, 0), Some((4, 5)));
    assert_eq!(find_word(&s, 1), Some((6, 7)));
    assert_eq!(find_word(&s, 2), None);
    assert_eq!(find_word(&c(""), 0), None);
    assert_eq!(find_word(&c("one"), 0), Some((0, 3)));
}

#[test]
fn decimal_numbers() {
    let parse = |s: &str, max: u64| parse_number(s, max);
    assert_eq!(parse("0", 10), Some(0));
    assert_eq!(parse("10", 10), Some(10));
    assert_eq!(parse("11", 10), None);
    assert_eq!(parse("+10", 10), Some(10));
    assert_eq!(parse("0010", 10), Some(10));
    assert_eq!(parse("", 10), None);
    assert_eq!(parse("+", 10), None);
    assert_eq!(parse("-1", 10), None);
    assert_eq!(parse("++1", 10), None);
    assert_eq!(parse("1+", 10), None);
    assert_eq!(parse("1a", 10), None);
    assert_eq!(parse("\u{661}", 10), None);
    assert_eq!(parse("5", 4), None);
    assert_eq!(parse("0", 0), Some(0));
    assert_eq!(parse("65535", 65535), Some(65535));
    assert_eq!(parse("65536", 65535), None);
    assert_eq!(parse("18446744073709551615", u64::MAX), Some(u64::MAX));
    assert_eq!(parse("18446744073709551616", u64::MAX), None);
    assert_eq!(parse("99999999999999999999999", u64::MAX), None);
}

#[test]
fn counters_stop_at_the_top() {
    assert_eq!(raised(1, 2), 3);
    assert_eq!(raised(u64::MAX - 1, 1), u64::MAX);
    assert_eq!(raised(u64::MAX - 1, 2), u64::MAX);
    assert_eq!(raised(u64::MAX, u64::MAX), u64::MAX);
    assert_eq!(raised(0, 0), 0);
}

#[test]
fn addresses_as_text() {
    let mut out = Vec::new();
    push_ipv4(&mut out, [192, 168, 0, 1]);
    assert_eq!(string_of(&out), "192.168.0.1");
    let mut out = Vec::new();
    push_addr(&mut out, PeerAddr { ip: [0, 10, 100, 255], port: 65535 });
    assert_eq!(string_of(&out), "0.10.100.255:65535");
    let parse = |s: &str| parse_ipv4_text(s);
    assert_eq!(parse("192.168.0.1"), Some([192, 168, 0, 1]));
    assert_eq!(parse("0.0.0.0"), Some([0, 0, 0, 0]));
    assert_eq!(parse("255.255.255.255"), Some([255, 255, 255, 255]));
    for bad in [
        "", "1", "1.2.3", "1.2.3.4.5", "1.2.3.", ".1.2.3", "1..2.3", "256.1.1.1", "1.1.1.256",
        "01.1.1.1", "1.1.1.00", "+1.1.1.1", "1.1.1.1 ", "a.b.c.d", "1.2.3.4:80", "0x1.1.1.1",
        "1000.1.1.1",
    ] {
        assert_eq!(parse(bad), None, "{}", bad);
    }
    for a in [[1u8, 2, 3, 4], [0, 0, 0, 0], [255, 255, 255, 255], [10, 100, 9, 99]] {
        let mut out = Vec::new();
        push_ipv4(&mut out, a);
        assert_eq!(parse_ipv4_text(&string_of(&out)), Some(a));
    }
}

#[test]
fn white_space_is_what_the_character_database_lists() {
    let listed = |n: u32| {
        (0x0009..=0x000D).contains(&n)
            || n == 0x0020
            || n == 0x0085
            || n == 0x00A0
            || n == 0x1680
            || (0x2000..=0x200A).contains(&n)
            || n == 0x2028
            || n == 0x2029
            || n == 0x202F
            || n == 0x205F
            || n == 0x3000
    };
    for n in 0..=0x10FFFFu32 {
        if let Some(c) = char::from_u32(n) {
            // A text of one character is trimmed to nothing exactly where
            // the character is white space.
            let trimmed_away = trim_bounds(&[c]) == (1, 1);
            assert_eq!(trimmed_away, listed(n), "U+{:04X}", n);
            assert_eq!(find_kind(&[c], true, 0) == 0, listed(n), "U+{:04X}", n);
        }
    }
}
