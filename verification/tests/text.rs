use rebuilderd::text::{
    chars_of, contains, ends_with, is_blank, is_white_space, push_decimal, replace, same_text,
    split_list, string_of, trim_end_matches, trim_matches,
};

const SAMPLES: [&str; 16] = [
    "",
    "/",
    "//",
    "a",
    "aa",
    "aaa",
    "abab",
    "https://example.org/api/v1",
    "https://example.org/api/v1//",
    "/v0",
    "/v0/",
    " a , b,,\u{3000}c\u{a0}, ",
    "\t\n \u{2028}",
    "\"GOOD\"",
    "h\u{e9}llo w\u{f6}rld \u{1f980}",
    "{arch}{arch}-{arch",
];

#[test]
fn white_space_is_that_of_unicode() {
    for c in '\0'..=char::MAX {
        assert_eq!(is_white_space(c), c.is_whitespace(), "{c:?}");
    }
}

#[test]
fn characters_go_in_and_out() {
    for s in SAMPLES {
        let chars = chars_of(s);
        assert_eq!(chars, s.chars().collect::<Vec<char>>());
        assert_eq!(string_of(&chars, 0, chars.len()), s);
    }
    assert_eq!(string_of(&chars_of("h\u{e9}llo"), 1, 3), "\u{e9}l");
}

#[test]
fn searching_agrees_with_std() {
    for s in SAMPLES {
        for part in SAMPLES {
            assert_eq!(contains(s, part), s.contains(part), "{s:?} {part:?}");
            assert_eq!(ends_with(s, part), s.ends_with(part), "{s:?} {part:?}");
            assert_eq!(same_text(s, part), s == part, "{s:?} {part:?}");
        }
    }
}

#[test]
fn trimming_agrees_with_std() {
    for s in SAMPLES {
        for c in ['/', 'a', '"', ' ', '\u{1f980}'] {
            assert_eq!(trim_end_matches(s, c), s.trim_end_matches(c));
            assert_eq!(trim_matches(s, c), s.trim_matches(c));
        }
        assert_eq!(is_blank(s), s.trim().is_empty(), "{s:?}");
    }
}

#[test]
fn replacing_agrees_with_std() {
    for s in SAMPLES {
        for pattern in ["a", "ab", "aa", "{arch}", "/", "\u{e9}"] {
            for with in ["", "amd64", "aa", "{arch}"] {
                assert_eq!(replace(s, pattern, with), s.replace(pattern, with));
            }
        }
    }
}

#[test]
fn lists_agree_with_std() {
    for s in SAMPLES {
        let expected: Vec<String> = s
            .split(',')
            .map(|item| item.trim().to_string())
            .filter(|item| !item.is_empty())
            .collect();
        assert_eq!(split_list(s), expected, "{s:?}");
    }
    assert_eq!(split_list(" a , b,,\u{3000}c\u{a0}, "), ["a", "b", "c"]);
}

#[test]
fn items_of_lists_are_clean() {
    for s in SAMPLES {
        for item in split_list(s) {
            assert!(!item.is_empty());
            assert!(!item.contains(','));
            assert_eq!(item, item.trim());
        }
    }
}

#[test]
fn joined_lists_read_back() {
    let items = vec!["a".to_string(), "b c".to_string(), "\u{1f980}".to_string()];
    assert_eq!(split_list(&items.join(",")), items);
    assert_eq!(split_list(""), Vec::<String>::new());
    assert_eq!(split_list("alone"), ["alone"]);
}

#[test]
fn numbers_are_written_in_decimal() {
    for n in [0, 7, 10, 42, 1000, -1, -10, 2147483647, -2147483647, -2147483648] {
        let mut s = String::from("#");
        push_decimal(&mut s, n);
        assert_eq!(s, format!("#{n}"));
    }
}
