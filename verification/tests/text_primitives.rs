use big_slides::text::{
    chain, chain3, contains, copy_range, equal, find, find_at, from_chars, is_whitespace,
    join_from, lines, matches_at, parse_u64, replace, split, starts_with, str_equal, to_chars,
    to_decimal, trim, trim_start_matches,
};

fn c(s: &str) -> Vec<char> {
    s.chars().collect()
}

fn s(v: &[char]) -> String {
    v.iter().collect()
}

fn rows(v: Vec<Vec<char>>) -> Vec<String> {
    v.iter().map(|r| s(r)).collect()
}

#[test]
fn strings_and_characters_convert_both_ways() {
    assert_eq!(to_chars("héllo ✓"), c("héllo ✓"));
    assert_eq!(to_chars(""), Vec::<char>::new());
    assert_eq!(from_chars(&c("héllo ✓")), "héllo ✓");
    assert_eq!(from_chars(&vec![]), "");
}

#[test]
fn white_space_is_what_the_standard_library_says() {
    for code in 0u32..=0x3100 {
        if let Some(ch) = char::from_u32(code) {
            assert_eq!(is_whitespace(ch), ch.is_whitespace(), "U+{:04X}", code);
        }
    }
    assert!(!is_whitespace('\u{FEFF}'));
    assert!(!is_whitespace('\u{10FFFF}'));
}

#[test]
fn trimming() {
    for text in ["", " ", "a", " a", "a ", "  a b \t\n", "\u{3000}x\u{A0}", "\r\n", "a\u{200B}"] {
        assert_eq!(s(&trim(&c(text))), text.trim(), "{:?}", text);
    }
}

#[test]
fn leading_patterns_are_stripped() {
    for (text, pat) in [("% % a", "% "), ("%a", "% "), ("", "% "), ("///a/", "/"), ("aaa", "aa"), ("abc", "")] {
        assert_eq!(s(&trim_start_matches(&c(text), &c(pat))), text.trim_start_matches(pat));
    }
    assert_eq!(s(&trim_start_matches(&c("abab"), &c("ab"))), "");
}

#[test]
fn searching() {
    for (text, pat) in [("abcabc", "bc"), ("abc", "abc"), ("abc", "abcd"), ("", "a"), ("aaa", "aa"), ("a<h1>b</h1>", "</h1>")] {
        assert_eq!(find(&c(text), &c(pat)), text.find(pat), "{:?} {:?}", text, pat);
        assert_eq!(contains(&c(text), &c(pat)), text.contains(pat));
        assert_eq!(starts_with(&c(text), &c(pat)), text.starts_with(pat));
    }
    assert_eq!(find(&c("abc"), &c("")), Some(0));
    assert_eq!(find(&c(""), &c("")), Some(0));
    assert_eq!(find_at(&c("abcabc"), &c("bc"), 2), Some(4));
    assert_eq!(find_at(&c("abcabc"), &c("bc"), 5), None);
    assert_eq!(find_at(&c("abc"), &c("c"), 99), None);
    assert!(matches_at(&c("abc"), &c("bc"), 1));
    assert!(!matches_at(&c("abc"), &c("bc"), 2));
    assert!(!matches_at(&c("abc"), &c("bc"), usize::MAX));
    assert!(matches_at(&c("abc"), &c(""), 3));
    assert!(!matches_at(&c("abc"), &c(""), 4));
}

#[test]
fn replacing() {
    for (text, pat, with) in [
        ("a\\#b\\#", "\\#", "!--HASH--!"),
        ("aaa", "aa", "b"),
        ("abc", "x", "y"),
        ("", "x", "y"),
        ("xx", "x", ""),
        ("abab", "ab", "abab"),
    ] {
        assert_eq!(s(&replace(&c(text), &c(pat), &c(with))), text.replace(pat, with));
    }
    assert_eq!(s(&replace(&c("abc"), &c(""), &c("-"))), "abc");
}

#[test]
fn lines_are_cut_as_the_standard_library_cuts_them() {
    for text in ["", "a", "a\n", "a\nb", "a\r\nb\r\n", "\n", "\n\n", "a\r", "a\rb\n", "\r\n", "a\n\r", "\r\r\n", "x\n\ny"] {
        let expected: Vec<String> = text.lines().map(|l| l.to_string()).collect();
        assert_eq!(rows(lines(&c(text))), expected, "{:?}", text);
    }
}

#[test]
fn splitting_and_joining() {
    for (text, sep) in [("a<hr />b", "<hr />"), ("<hr />", "<hr />"), ("", "<hr />"), ("a", "<hr />"), ("a,,b,", ","), ("aaa", "aa")] {
        let expected: Vec<String> = text.split(sep).map(|p| p.to_string()).collect();
        assert_eq!(rows(split(&c(text), &c(sep))), expected, "{:?}", text);
    }
    assert_eq!(rows(split(&c("abc"), &c(""))), vec!["abc".to_string()]);
    let parts = vec![c("a"), c(""), c("b c")];
    assert_eq!(s(&join_from(&parts, 0, &c("\n"))), "a\n\nb c");
    assert_eq!(s(&join_from(&parts, 1, &c("\n"))), "\nb c");
    assert_eq!(s(&join_from(&parts, 2, &c(", "))), "b c");
    assert_eq!(s(&join_from(&parts, 3, &c("\n"))), "");
}

#[test]
fn numbers_to_text_and_back() {
    assert_eq!(s(&to_decimal(0)), "0");
    assert_eq!(s(&to_decimal(9)), "9");
    assert_eq!(s(&to_decimal(10)), "10");
    assert_eq!(s(&to_decimal(65535)), "65535");
    assert_eq!(s(&to_decimal(u128::MAX)), u128::MAX.to_string());
    for text in ["0", "1", "+1", "0009", "18446744073709551615", "18446744073709551616", "", "+", "-", "-1", "1.5", "٣", "1e3", " 1"] {
        assert_eq!(parse_u64(&c(text)), text.parse::<u64>().ok(), "{:?}", text);
    }
}

#[test]
fn equality_copy_and_concatenation() {
    assert!(equal(&c("abc"), &c("abc")));
    assert!(!equal(&c("abc"), &c("abd")));
    assert!(!equal(&c("abc"), &c("ab")));
    assert!(str_equal("", ""));
    assert!(!str_equal("a", "A"));
    assert_eq!(s(&copy_range(&c("hello"), 1, 3)), "el");
    assert_eq!(s(&copy_range(&c("hello"), 5, 5)), "");
    assert_eq!(chain("ab", "cd"), "abcd");
    assert_eq!(chain3("a", "", "c"), "ac");
}
