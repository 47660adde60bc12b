use steamos_manager::numbers::{
    parse_i32, parse_u16, parse_u32, parse_u8, parse_up_to, push_hexadecimal_2,
    to_decimal, to_signed_decimal,
};
use steamos_manager::text::{
    chars_of, contains, ends_with, is_whitespace, lines, same_text,
    split, split_once, split_whitespace, starts_with, text_of, to_ascii_lowercase, trim, trim_end,
};

const SAMPLES: [&str; 12] = [
    "",
    " ",
    "\n",
    "a",
    "a\r\nb\n",
    "a\r\r\n\r",
    "  two  words\t\u{2003}here ",
    "\u{a0}x\u{3000}",
    "one\n\ntwo\n",
    "key=value=more",
    "UPPER \u{c9}\u{212a} lower",
    "\u{1f600}end",
];

#[test]
fn white_space_is_that_of_std() {
    for n in 0..=0x10ffffu32 {
        if let Some(c) = char::from_u32(n) {
            assert_eq!(is_whitespace(c), c.is_whitespace());
        }
    }
}

#[test]
fn texts_are_cut_as_std_does() {
    for s in SAMPLES {
        assert_eq!(trim(s), s.trim());
        assert_eq!(trim_end(s), s.trim_end());
        assert_eq!(lines(s), s.lines().collect::<Vec<_>>());
        assert_eq!(
            split_whitespace(s),
            s.split_whitespace().collect::<Vec<_>>()
        );
        for c in ['\n', ' ', '=', 'x'] {
            assert_eq!(split(s, c), s.split(c).collect::<Vec<_>>());
            let cut = split_once(s, c);
            let expected = s.split_once(c).map(|(a, b)| (a.to_string(), b.to_string()));
            assert_eq!(cut, expected);
        }
        assert_eq!(to_ascii_lowercase(s), s.to_ascii_lowercase());
        assert_eq!(chars_of(s), s.chars().collect::<Vec<_>>());
        assert_eq!(text_of(&chars_of(s), 0, s.chars().count()), s);
    }
}

#[test]
fn texts_are_compared_as_std_does() {
    for a in SAMPLES {
        for b in SAMPLES {
            assert_eq!(same_text(a, b), a == b);
            assert_eq!(starts_with(a, b), a.starts_with(b));
            assert_eq!(ends_with(a, b), a.ends_with(b));
            assert_eq!(contains(a, b), a.contains(b));
            assert_eq!(steamos_manager::text::concat(a, b), format!("{a}{b}"));
        }
    }
    assert!(contains("a\n\nb", "\n\nb"));
}

#[test]
fn numbers_are_read_as_std_does() {
    for s in [
        "", "+", "-", "0", "-0", "+0", "7", "+7", "-7", "007", "255", "256", "65535", "65536",
        "2147483647", "2147483648", "-2147483648", "-2147483649", "4294967295", "4294967296",
        "18446744073709551615", "18446744073709551616", "1 ", " 1", "1_0", "0x1", "\u{661}", "++1",
        "000000000000000000000000000012",
    ] {
        assert_eq!(parse_u8(s), s.parse::<u8>().ok());
        assert_eq!(parse_u16(s), s.parse::<u16>().ok());
        assert_eq!(parse_u32(s), s.parse::<u32>().ok());
        assert_eq!(parse_i32(s), s.parse::<i32>().ok());
    }
    assert_eq!(parse_up_to("100", 100), Some(100));
    assert_eq!(parse_up_to("101", 100), None);
}

#[test]
fn numbers_are_written_as_std_does() {
    for n in [0, 1, 9, 10, 99, 100, 12345, u64::MAX] {
        assert_eq!(to_decimal(n), n.to_string());
    }
    for n in [i64::MIN, -10, -1, 0, 1, i64::MAX] {
        assert_eq!(to_signed_decimal(n), n.to_string());
    }
    for n in [0u32, 1, 15, 16, 255, 256, 0x2e35, 0x10ffff, u32::MAX] {
        let mut out = String::from("_");
        push_hexadecimal_2(&mut out, n);
        assert_eq!(out, format!("_{n:02x}"));
    }
}
