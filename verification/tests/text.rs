use citebot::decimal::{integer_text, natural_text, parse_unsigned};
use citebot::text::{
    chars_of, find_in, has_prefix, is_white_space, join, join3, lines_of, replace_each, same_chars,
    same_text, split_at_each, string_of, strip_prefixes, trim, trim_of,
};
use citebot::utf8::decode;

fn chars(s: &str) -> Vec<char> {
    s.chars().collect()
}

fn strings(parts: Vec<&[char]>) -> Vec<String> {
    parts.into_iter().map(|p| p.iter().collect()).collect()
}

const SAMPLES: [&str; 16] = [
    "",
    " ",
    "a",
    "\n",
    "\r\n",
    "a\nb",
    "a\n\nb\n\n\nc",
    "a\r\nb\r\r\nc\r",
    "\n\n\n\n",
    " \u{a0}x y\u{3000}\t",
    "data: data:x",
    "data:data:x",
    "/a//b/",
    "//",
    "né\u{2028}【1:2†source】",
    "\r\r\n\n",
];

#[test]
fn strings_and_characters_convert_both_ways() {
    for s in SAMPLES {
        assert_eq!(chars_of(s), chars(s));
        assert_eq!(string_of(&chars(s)), s);
    }
}

#[test]
fn texts_are_compared_by_their_characters() {
    for a in SAMPLES {
        for b in SAMPLES {
            assert_eq!(same_text(a, b), a == b);
            assert_eq!(same_chars(&chars(a), &chars(b)), a == b);
        }
    }
}

#[test]
fn texts_are_joined() {
    assert_eq!(join("a", "é"), "aé");
    assert_eq!(join3("a", "", "【"), "a【");
}

#[test]
fn white_space_is_that_of_unicode() {
    for u in 0..=0x10ffffu32 {
        if let Some(c) = char::from_u32(u) {
            assert_eq!(is_white_space(c), c.is_whitespace(), "{:x}", u);
        }
    }
}

#[test]
fn trimming_takes_white_space_off_both_ends() {
    for s in SAMPLES {
        let t: String = trim(&chars(s)).iter().collect();
        assert_eq!(t, s.trim());
    }
}

#[test]
fn slashes_are_trimmed_off_both_ends() {
    for s in SAMPLES {
        let t: String = trim_of(&chars(s), '/').iter().collect();
        assert_eq!(t, s.trim_matches('/'));
    }
}

#[test]
fn the_first_occurrence_is_found() {
    assert_eq!(find_in(&chars("abcabc"), &chars("bc")), Some(1));
    assert_eq!(find_in(&chars("aab"), &chars("ab")), Some(1));
    assert_eq!(find_in(&chars("abc"), &chars("x")), None);
    assert_eq!(find_in(&chars("ab"), &chars("abc")), None);
    assert_eq!(find_in(&chars(""), &chars("")), Some(0));
    assert!(has_prefix(&chars("data: x"), &chars("data:")));
    assert!(!has_prefix(&chars("dat"), &chars("data:")));
}

#[test]
fn splitting_is_that_of_str() {
    for s in SAMPLES {
        for p in ["\n\n", "/", "a"] {
            let parts = strings(split_at_each(&chars(s), &chars(p)));
            let expected: Vec<String> = s.split(p).map(|x| x.to_string()).collect();
            assert_eq!(parts, expected);
        }
    }
}

#[test]
fn replacing_is_that_of_str() {
    for s in SAMPLES {
        for (p, by) in [("\r\n", "\n"), ("\n\n", ""), ("a", "aa")] {
            let r: String = replace_each(&chars(s), &chars(p), &chars(by)).iter().collect();
            assert_eq!(r, s.replace(p, by));
        }
    }
}

#[test]
fn lines_are_those_of_str() {
    for s in SAMPLES {
        let expected: Vec<String> = s.lines().map(|x| x.to_string()).collect();
        assert_eq!(strings(lines_of(&chars(s))), expected, "{:?}", s);
    }
}

#[test]
fn repeated_prefixes_are_stripped() {
    for s in SAMPLES {
        let r: String = strip_prefixes(&chars(s), &chars("data:")).iter().collect();
        assert_eq!(r, s.trim_start_matches("data:"));
    }
    let r: String = strip_prefixes(&chars("data:data:x"), &chars("data:")).iter().collect();
    assert_eq!(r, "x");
}

#[test]
fn integers_are_written_in_decimal() {
    for n in [0i64, 7, 10, -1, -10, 12345678901, i64::MAX, i64::MIN] {
        assert_eq!(integer_text(n), n.to_string());
    }
    for n in [0u64, 9, 10, 100, u64::MAX] {
        assert_eq!(natural_text(n), n.to_string());
    }
}

#[test]
fn numbers_are_read_as_the_standard_library_reads_them() {
    for s in [
        "", "+", "-1", "0", "+7", "++7", "007", " 1", "1 ", "65535", "65536", "1_0", "٣", "9x",
        "18446744073709551615", "18446744073709551616", "99999999999999999999999",
    ] {
        assert_eq!(parse_unsigned(s, u16::MAX as u64), s.parse::<u16>().ok().map(|n| n as u64));
        assert_eq!(parse_unsigned(s, u64::MAX), s.parse::<u64>().ok());
    }
    assert_eq!(parse_unsigned("12", 11), None);
    assert_eq!(parse_unsigned("12", 12), Some(12));
}

#[test]
fn a_written_number_is_read_back() {
    for n in [0u64, 1, 42, 8080, u64::MAX] {
        assert_eq!(parse_unsigned(&natural_text(n), u64::MAX), Some(n));
    }
}

#[test]
fn bytes_are_decoded_as_utf8() {
    assert_eq!(decode("né".as_bytes()), Some("né".to_string()));
    assert_eq!(decode(&[0x61, 0xc3]), None);
    assert_eq!(decode(&[]), Some(String::new()));
}
