use cmake_tui_tool::number::{only_digits, parse, to_decimal};
use cmake_tui_tool::string_map::StringMap;
use cmake_tui_tool::text::{
    contains, copy, ends_with, equal, find, first_word, is_digit, is_white, join, lines, position,
    replace_char, replace_first, same, split, starts_with, str_contains, str_starts_with,
    strip_prefix, strip_suffix, to_chars, trim, trim_end, trim_end_char, trim_end_newlines,
    trim_end_text, trim_start,
};
use cmake_tui_tool::text_set::{insert_sorted, select};

fn chars(s: &str) -> Vec<char> {
    s.chars().collect()
}

fn text(c: &[char]) -> String {
    c.iter().collect()
}

fn texts(v: Vec<Vec<char>>) -> Vec<String> {
    v.iter().map(|c| text(c)).collect()
}

#[test]
fn white_space_and_digits_are_those_of_unicode_and_ascii() {
    for n in 0..=0x10FFFFu32 {
        if let Some(c) = char::from_u32(n) {
            assert_eq!(is_white(c), c.is_whitespace(), "{:x}", n);
            assert_eq!(is_digit(c), c.is_ascii_digit(), "{:x}", n);
        }
    }
}

#[test]
fn trimming_agrees_with_strings() {
    for s in ["", " ", "a", " a", "a ", "\t a b \u{3000}", "..a..", "a...", "\r\n", "a\r\n\r\n", "x.exe.exe"] {
        let c = chars(s);
        assert_eq!(text(trim(&c)), s.trim());
        assert_eq!(text(trim_start(&c)), s.trim_start());
        assert_eq!(text(trim_end(&c)), s.trim_end());
        assert_eq!(text(trim_end_char(&c, '.')), s.trim_end_matches('.'));
        assert_eq!(text(trim_end_newlines(&c)), s.trim_end_matches(['\r', '\n']));
        assert_eq!(text(trim_end_text(&c, ".exe")), s.trim_end_matches(".exe"));
    }
}

#[test]
fn searching_agrees_with_strings() {
    let samples = ["", "a", "ab", "abab", "xaby", "aaab", "ba", "ä-b", "a=b=c"];
    for s in samples {
        let c = chars(s);
        for p in ["", "a", "ab", "b", "aab", "=", "abab", "zz", "ä"] {
            let byte = s.find(p).map(|i| s[..i].chars().count());
            assert_eq!(find(&c, p), byte, "{} {}", s, p);
            assert_eq!(contains(&c, p), s.contains(p));
            assert_eq!(str_contains(s, p), s.contains(p));
            assert_eq!(starts_with(&c, p), s.starts_with(p));
            assert_eq!(str_starts_with(s, p), s.starts_with(p));
            assert_eq!(ends_with(&c, p), s.ends_with(p));
            assert_eq!(strip_prefix(&c, p).map(text), s.strip_prefix(p).map(|x| x.to_string()));
            assert_eq!(strip_suffix(&c, p).map(text), s.strip_suffix(p).map(|x| x.to_string()));
            assert_eq!(replace_first(s, p, "+"), s.replacen(p, "+", 1));
            assert_eq!(equal(s, p), s == p);
            assert_eq!(same(&c, &chars(p)), s == p);
        }
    }
}

#[test]
fn splitting_and_joining_agree_with_strings() {
    for s in ["", ".", "a.b", "a..b", ".a.", "abc", "1.2.3"] {
        let parts: Vec<String> = s.split('.').map(|x| x.to_string()).collect();
        assert_eq!(texts(split(&chars(s), '.')), parts);
        assert_eq!(join(&parts, "."), s);
    }
    for s in ["", "\n", "a", "a\n", "a\r\nb", "a\r", "\n\nb", "a\r\r\n", "a\n\r\nb\n"] {
        let ls: Vec<String> = s.lines().map(|x| x.to_string()).collect();
        assert_eq!(texts(lines(&chars(s))), ls, "{:?}", s);
    }
    assert_eq!(join(&Vec::new(), ","), "");
}

#[test]
fn words_copies_and_positions() {
    for s in ["", "  ", "a", "  14.2.0 (x)", "x\ty", "\u{a0}n m"] {
        let w = first_word(&chars(s)).map(text);
        assert_eq!(w, s.split_whitespace().next().map(|x| x.to_string()));
    }
    assert_eq!(copy(&['a', 'b']), vec!['a', 'b']);
    assert_eq!(to_chars("aé"), vec!['a', 'é']);
    let v = vec!["x".to_string(), "y".to_string(), "y".to_string()];
    assert_eq!(position(&v, "y"), Some(1));
    assert_eq!(position(&v, "z"), None);
    assert_eq!(replace_char("a\\b\\c", '\\', '/'), "a/b/c");
}

#[test]
fn numbers() {
    for s in ["", "+", "0", "7", "007", "+42", "++1", "-1", "1a", "18446744073709551615", "18446744073709551616", "99999999999999999999999"] {
        assert_eq!(parse(&chars(s)), s.parse::<u64>().ok(), "{}", s);
    }
    for n in [0u64, 9, 10, 2022, u64::MAX] {
        assert_eq!(to_decimal(n), n.to_string());
        assert_eq!(parse(&chars(&to_decimal(n))), Some(n));
    }
    assert!(only_digits(&chars("0123456789")));
    assert!(only_digits(&[]));
    assert!(!only_digits(&chars("12a")));
}

#[test]
fn sets_are_sorted_and_hold_each_text_once() {
    let mut set = Vec::new();
    for s in ["b", "a", "c", "b", "", "ab", "é", "a", "z"] {
        insert_sorted(&mut set, s.to_string());
    }
    assert_eq!(set, vec!["", "a", "ab", "b", "c", "z", "é"]);
    let other = vec!["a".to_string(), "q".to_string(), "z".to_string()];
    assert_eq!(select(&set, &other, true), vec!["a", "z"]);
    assert_eq!(select(&other, &set, false), vec!["q"]);
}

#[test]
fn maps_hold_the_last_value_of_each_key() {
    let mut m: StringMap<String> = StringMap::new();
    assert!(m.is_empty());
    m.insert("a".to_string(), "1".to_string());
    m.insert("b".to_string(), "2".to_string());
    m.insert("a".to_string(), "3".to_string());
    assert_eq!(m.len(), 2);
    assert!(!m.is_empty());
    assert_eq!(m.get("a").map(|s| s.as_str()), Some("3"));
    assert_eq!(m.get("c"), None);
    assert_eq!(m.key_at(0), "b");
    assert_eq!(m.key_at(1), "a");
    assert_eq!(m.value_at(1), "3");
    m.remove_at(0);
    assert_eq!(m.get("b"), None);
    assert_eq!(m.len(), 1);
}
