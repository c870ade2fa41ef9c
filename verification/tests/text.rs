//! Texts, characters and numbers, held against the standard library.
use pacpin::aur::urlencoding;
use pacpin::paths::{join_path, last_component};
use pacpin::pm::lock_pid;
use pacpin::text::{
    ascii_letter, ascii_word, contains, cut_at, cut_at_last, digit, ends_with, eq_ignore_case,
    lines_of, lower_char, lower_string, number_text, parse_number, parse_u32, parse_usize,
    signed_text, space, split_string, starts_with, str_precedes, strip_end_char, trimmed,
    trimmed_end, words_of,
};

const SAMPLES: [&str; 24] = [
    "",
    " ",
    "\u{a0}x\u{3000}",
    "a b",
    "  lead and trail \t\r\n",
    "one\ntwo\r\nthree\n\nfive",
    "\r",
    "a\r\r\nb",
    "no newline at end\r",
    "x/y/z",
    "//",
    "é日🚀 mixed",
    "-",
    "+",
    "+7",
    "-7",
    "007",
    "18446744073709551615",
    "18446744073709551616",
    "4294967295",
    "4294967296",
    "12a",
    " 12",
    "A-Z_09.~",
];

#[test]
fn characters_are_classed_as_usual() {
    for n in 0..=0x10ffff_u32 {
        if let Some(c) = char::from_u32(n) {
            assert_eq!(space(c), c.is_whitespace(), "{:x}", n);
            assert_eq!(digit(c), c.is_ascii_digit(), "{:x}", n);
            assert_eq!(ascii_letter(c), c.is_ascii_alphabetic(), "{:x}", n);
            assert_eq!(ascii_word(c), c.is_ascii_alphanumeric(), "{:x}", n);
            assert_eq!(lower_char(c), c.to_ascii_lowercase(), "{:x}", n);
        }
    }
}

#[test]
fn texts_are_taken_apart_as_usual() {
    for s in SAMPLES {
        assert_eq!(trimmed(s), s.trim());
        assert_eq!(trimmed_end(s), s.trim_end());
        assert_eq!(lines_of(s), s.lines().collect::<Vec<_>>());
        assert_eq!(words_of(s), s.split_whitespace().collect::<Vec<_>>());
        assert_eq!(split_string(s, '/'), s.split('/').collect::<Vec<_>>());
        assert_eq!(lower_string(s), s.to_ascii_lowercase());
        let pair = |o: Option<(&str, &str)>| o.map(|(a, b)| (a.to_string(), b.to_string()));
        assert_eq!(cut_at(s, '/'), pair(s.split_once('/')));
        assert_eq!(cut_at_last(s, "/"), pair(s.rsplit_once("/")));
        assert_eq!(strip_end_char(s, '/'), s.trim_end_matches('/'));
        for t in SAMPLES {
            assert_eq!(starts_with(s, t), s.starts_with(t));
            assert_eq!(ends_with(s, t), s.ends_with(t));
            assert_eq!(contains(s, t), s.contains(t));
            assert_eq!(eq_ignore_case(s, t), s.eq_ignore_ascii_case(t));
            assert_eq!(str_precedes(s, t), s < t);
        }
    }
}

#[test]
fn numbers_are_read_and_written_as_usual() {
    for s in SAMPLES {
        assert_eq!(parse_u32(s), s.parse::<u32>().ok(), "{}", s);
        assert_eq!(parse_usize(s), s.parse::<usize>().ok(), "{}", s);
        assert_eq!(parse_number(s, u64::MAX), s.parse::<u64>().ok(), "{}", s);
        let first = s.split_whitespace().next().and_then(|t| t.parse::<i32>().ok());
        assert_eq!(lock_pid(s), first.filter(|p| *p > 0), "{}", s);
    }
    for n in [0, 1, 9, 10, 99, 100, 65_535, u64::MAX - 1, u64::MAX] {
        assert_eq!(number_text(n), n.to_string());
        assert_eq!(parse_number(&number_text(n), u64::MAX), Some(n));
    }
    for n in [0, 1, -1, i64::MAX, i64::MIN, i64::MIN + 1] {
        assert_eq!(signed_text(n), n.to_string());
    }
}

#[test]
fn paths_are_joined_as_usual() {
    for base in ["", "/", "/a", "/a/", "a/b"] {
        for part in ["b", "/b", "b/c", ""] {
            let expected = std::path::Path::new(base).join(part);
            assert_eq!(join_path(base, part), expected.to_string_lossy());
        }
    }
    assert_eq!(last_component("/usr/bin/pin"), "pin");
    assert_eq!(last_component("pin"), "pin");
}

#[test]
fn encoded_texts_are_plain() {
    for s in SAMPLES {
        let e = urlencoding(s);
        assert!(e.chars().all(|c| c.is_ascii_alphanumeric() || "-_.~%".contains(c)));
        let expected: String = s
            .bytes()
            .map(|b| {
                if b.is_ascii_alphanumeric() || b"-_.~".contains(&b) {
                    (b as char).to_string()
                } else {
                    format!("%{:02X}", b)
                }
            })
            .collect();
        assert_eq!(e, expected);
    }
}
