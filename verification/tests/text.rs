use wishmaster::binary32::{is_not_a_number, key, less_or_equal, less_than};
use wishmaster::text::{
    find, from_chars, integer_to_string, is_whitespace_char, join_with, split_lines, split_words,
    str_contains, str_ends_with, str_equals, str_is_empty, str_remove_all, str_replace,
    str_starts_with, str_trim, take_chars, to_chars, trim_end_matches,
};

const SAMPLES: [&str; 14] = [
    "",
    " ",
    "a",
    "  a  ",
    "\t\n hello world \r\n",
    "\u{a0}x\u{3000}",
    "\u{85}\u{1680}y\u{2028}\u{2029}\u{202f}\u{205f}",
    "\u{200b}zero width\u{200b}",
    "aaa",
    "abcabcabc",
    "Привет, мир",
    "line one\nline two\r\nline three",
    "\n\nleading",
    "trailing\n\n",
];

#[test]
fn test_whitespace_is_the_unicode_property() {
    for code in 0..=0x11_0000u32 {
        if let Some(c) = char::from_u32(code) {
            assert_eq!(is_whitespace_char(c), c.is_whitespace(), "for U+{:04X}", code);
        }
    }
}

#[test]
fn test_trim_and_words_agree_with_std() {
    for s in SAMPLES {
        assert_eq!(str_trim(s), s.trim(), "for {:?}", s);
        let words: Vec<String> = s.split_whitespace().map(|w| w.to_string()).collect();
        assert_eq!(split_words(s), words, "for {:?}", s);
        let lines: Vec<String> = s.lines().map(|l| l.to_string()).collect();
        assert_eq!(split_lines(s), lines, "for {:?}", s);
        assert_eq!(str_is_empty(s), s.is_empty());
        assert_eq!(from_chars(&to_chars(s)), s);
        for n in [0usize, 1, 2, 5, 200] {
            assert_eq!(take_chars(s, n), s.chars().take(n).collect::<String>());
        }
    }
    assert_eq!(split_lines("a\r\n\rb\r"), vec!["a", "\rb\r"]);
    assert_eq!(split_lines("a\r\r\n"), vec!["a\r"]);
}

#[test]
fn test_search_and_replace_agree_with_std() {
    let patterns = ["", "a", "aa", "abc", "bc", "мир", "\n", "x", "abcabcabcabc"];
    for s in SAMPLES {
        for p in patterns {
            assert_eq!(str_contains(s, p), s.contains(p), "{:?} in {:?}", p, s);
            assert_eq!(str_starts_with(s, p), s.starts_with(p), "{:?} in {:?}", p, s);
            assert_eq!(str_ends_with(s, p), s.ends_with(p), "{:?} in {:?}", p, s);
            assert_eq!(str_equals(s, p), s == p);
            assert_eq!(find(&to_chars(s), &to_chars(p)), s.contains(p));
            if !p.is_empty() {
                assert_eq!(str_remove_all(s, p), s.replace(p, ""), "{:?} in {:?}", p, s);
                for w in ["", "-", "aa", p] {
                    assert_eq!(str_replace(s, p, w), s.replace(p, w), "{:?} in {:?}", p, s);
                }
            }
        }
    }
    assert_eq!(str_remove_all("aaa", "aa"), "a");
    assert_eq!(str_replace("aaaa", "aa", "a"), "aa");
    assert_eq!(str_remove_all("abc", ""), "abc");
    assert_eq!(str_replace("abc", "", "x"), "abc");
}

#[test]
fn test_joining_and_trimming_ends() {
    let pieces = vec!["a".to_string(), "".to_string(), "bc".to_string()];
    assert_eq!(join_with(&pieces, ", "), "a, , bc");
    assert_eq!(join_with(&pieces, ""), "abc");
    assert_eq!(join_with(&vec!["only".to_string()], " OR "), "only");
    assert_eq!(join_with(&Vec::new(), " OR "), "");
    for s in ["", "/", "//", "http://h/", "http://h//", "http://h", "/a/b"] {
        assert_eq!(trim_end_matches(s, '/'), s.trim_end_matches('/'), "for {:?}", s);
    }
}

#[test]
fn test_integers_in_decimal() {
    for v in [0i64, 1, 9, 10, 11, 99, 100, 12345, -1, -9, -10, -12345, i64::MAX, i64::MIN, i64::MIN + 1] {
        assert_eq!(integer_to_string(v), v.to_string());
    }
}

#[test]
fn test_ordering_of_bit_patterns_is_that_of_numbers() {
    let numbers = [
        0.0f32,
        -0.0,
        1.0,
        -1.0,
        0.4,
        0.5,
        0.49999997,
        0.50000006,
        f32::MIN_POSITIVE,
        -f32::MIN_POSITIVE,
        1.0e-45,
        -1.0e-45,
        f32::MAX,
        f32::MIN,
        f32::INFINITY,
        f32::NEG_INFINITY,
        f32::NAN,
        -f32::NAN,
        f32::from_bits(0x7f80_0001),
        f32::from_bits(0xffc0_0000),
        0.1,
        0.7,
        2.0,
    ];
    for a in numbers {
        assert_eq!(is_not_a_number(a.to_bits()), a.is_nan(), "for {:?}", a);
        for b in numbers {
            assert_eq!(less_or_equal(a.to_bits(), b.to_bits()), a <= b, "{:?} <= {:?}", a, b);
            assert_eq!(less_than(a.to_bits(), b.to_bits()), a < b, "{:?} < {:?}", a, b);
            if !a.is_nan() && !b.is_nan() {
                assert_eq!(key(a.to_bits()) < key(b.to_bits()), a < b);
                assert_eq!(key(a.to_bits()) == key(b.to_bits()), a == b);
            }
        }
    }
    assert_eq!(key(0), 0);
    assert_eq!(key(0x8000_0000), 0);
    assert_eq!(key(1.0f32.to_bits()), 0x3f80_0000);
    assert_eq!(key((-1.0f32).to_bits()), -0x3f80_0000);
}

#[test]
fn test_ordering_of_random_bit_patterns() {
    let mut state: u32 = 0x9e37_79b9;
    let mut previous: u32 = 0;
    for _ in 0..20000 {
        state ^= state << 13;
        state ^= state >> 17;
        state ^= state << 5;
        let (a, b) = (f32::from_bits(state), f32::from_bits(previous));
        assert_eq!(less_or_equal(state, previous), a <= b);
        assert_eq!(less_than(state, previous), a < b);
        assert_eq!(is_not_a_number(state), a.is_nan());
        previous = state;
    }
}
