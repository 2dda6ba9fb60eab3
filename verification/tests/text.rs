use deepseek_desktop::decimal::{decimal, parse_u16, parse_u64, signed_decimal};
use deepseek_desktop::text::{
    eq_ignore_ascii_case, is_whitespace, line_one, nth_word, starts_with, strip_prefix, to_chars, trim,
};

const SAMPLES: [&str; 12] = [
    "",
    " ",
    "a",
    " a ",
    "a b",
    "\t a\u{85}b \u{2003}c\n",
    "HTTP/1.1 200 OK\r\nHost: x\r\n",
    "\r\n\r\n",
    "bare\r",
    "one\r\r\ntwo",
    "运行时 已就绪\u{3000}",
    "\u{200b}zero width is no space\u{feff}",
];

#[test]
fn whitespace_agrees_with_std_on_every_char() {
    for c in '\0'..=char::MAX {
        assert_eq!(is_whitespace(c), c.is_whitespace(), "{c:?}");
    }
}

#[test]
fn trim_agrees_with_std() {
    for s in SAMPLES {
        assert_eq!(trim(s), s.trim());
        assert_eq!(trim(trim(s)), trim(s));
    }
}

#[test]
fn words_agree_with_std() {
    for s in SAMPLES {
        let expected: Vec<&str> = s.split_whitespace().collect();
        for n in 0..6 {
            assert_eq!(nth_word(s, n), expected.get(n).copied(), "{s:?} {n}");
        }
    }
}

#[test]
fn first_line_agrees_with_std() {
    for s in SAMPLES {
        assert_eq!(line_one(s), s.lines().next().unwrap_or(""), "{s:?}");
    }
}

#[test]
fn prefixes_agree_with_std() {
    for s in SAMPLES {
        for p in ["", "a", " ", "HTTP", "运", "one\r", "longer than any of these samples, surely"] {
            assert_eq!(strip_prefix(s, p), s.strip_prefix(p));
            assert_eq!(starts_with(s, p), s.starts_with(p));
        }
    }
}

#[test]
fn ascii_case_agrees_with_std() {
    for (a, b) in [("", ""), ("aF0", "Af0"), ("a", "b"), ("é", "É"), ("@[`{", "@[`{"), ("@", "`"), ("ab", "a")] {
        assert_eq!(eq_ignore_ascii_case(a, b), a.eq_ignore_ascii_case(b), "{a} {b}");
    }
}

#[test]
fn chars_of_a_text() {
    assert_eq!(to_chars("a运b"), vec!['a', '运', 'b']);
    assert_eq!(to_chars(""), Vec::<char>::new());
}

#[test]
fn numbers_are_read_as_std_reads_them() {
    for s in [
        "", "+", "-", "0", "+0", "-0", "200", "+200", "++2", "0000000000000000000000000000200", "65535", "65536",
        "18446744073709551615", "18446744073709551616", "99999999999999999999999", "12a", " 12", "1_0", "１２",
    ] {
        assert_eq!(parse_u16(s), s.parse::<u16>().ok(), "{s:?}");
        assert_eq!(parse_u64(s), s.parse::<u64>().ok(), "{s:?}");
    }
}

#[test]
fn numbers_are_written_as_std_writes_them() {
    for n in [0u64, 9, 10, 99, 100, 65535, u64::MAX] {
        assert_eq!(decimal(n), n.to_string());
        assert_eq!(parse_u64(&decimal(n)), Some(n));
    }
    for n in [0i32, -1, 1, 137, i32::MIN, i32::MAX] {
        assert_eq!(signed_decimal(n), n.to_string());
    }
}
