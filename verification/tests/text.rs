use http_core::text::{append, chars_of, find_from, join_chars, matches_at, same, split_chars, string_of, utf8_len};

fn chars(text: &str) -> Vec<char> {
    text.chars().collect()
}

fn split(text: &str, pat: &str) -> Vec<String> {
    let text = chars(text);
    let pat = chars(pat);
    split_chars(&text, &pat).into_iter().map(|piece| piece.iter().collect()).collect()
}

fn join(parts: &[&str], sep: &str) -> String {
    let parts: Vec<Vec<char>> = parts.iter().map(|part| chars(part)).collect();
    let parts: Vec<&[char]> = parts.iter().map(|part| part.as_slice()).collect();
    join_chars(&parts, &chars(sep)).into_iter().collect()
}

#[test]
fn chars_and_strings_convert_both_ways() {
    for text in ["", "a", "abc", "h\u{e9}llo", "\u{4e16}\u{754c}", "\r\n\r\n", "\u{1f600}!"] {
        assert_eq!(chars_of(text), chars(text));
        assert_eq!(string_of(&chars(text)), text);
    }
}

#[test]
fn matches_at_tells_where_a_pattern_stands() {
    let text = chars("abcabc");
    assert!(matches_at(&text, &chars("abc"), 0));
    assert!(matches_at(&text, &chars("abc"), 3));
    assert!(!matches_at(&text, &chars("abc"), 1));
    assert!(!matches_at(&text, &chars("abc"), 4));
    assert!(!matches_at(&text, &chars("abc"), 7));
    assert!(matches_at(&text, &chars(""), 6));
    assert!(!matches_at(&text, &chars(""), 7));
    assert!(!matches_at(&chars("ab"), &chars("abc"), 0));
    assert!(!matches_at(&text, &chars("abc"), usize::MAX));
}

#[test]
fn find_from_gives_the_first_occurrence() {
    let text = chars("a\r\nb\r\n\r\nc\r\n\r\n");
    assert_eq!(find_from(&text, &chars("\r\n\r\n"), 0), Some(4));
    assert_eq!(find_from(&text, &chars("\r\n"), 0), Some(1));
    assert_eq!(find_from(&text, &chars("\r\n"), 2), Some(4));
    assert_eq!(find_from(&text, &chars("\r\n\r\n"), 5), Some(9));
    assert_eq!(find_from(&text, &chars("\r\n\r\n"), 10), None);
    assert_eq!(find_from(&text, &chars("x"), 0), None);
    assert_eq!(find_from(&text, &chars(""), 3), Some(3));
    assert_eq!(find_from(&text, &chars("c"), text.len()), None);
    assert_eq!(find_from(&chars("aaa"), &chars("aa"), 0), Some(0));
    assert_eq!(find_from(&chars("aaa"), &chars("aa"), 1), Some(1));
    assert_eq!(find_from(&chars("aaa"), &chars("aa"), 2), None);
}

#[test]
fn find_from_agrees_with_str_find() {
    let texts = ["", "a", "ab", "aab", "abab", "xxabxxab", "\r\n\r\n", "a\r\r\n\r\n", "h\u{e9}\u{e9}llo"];
    let pats = ["a", "ab", "b", "\r\n", "\r\n\r\n", "\u{e9}l", "xx"];
    for text in texts {
        for pat in pats {
            let expected = text.find(pat).map(|at| text[..at].chars().count());
            assert_eq!(find_from(&chars(text), &chars(pat), 0), expected, "{:?} in {:?}", pat, text);
        }
    }
}

#[test]
fn split_cuts_at_every_occurrence() {
    assert_eq!(split("a b c", " "), ["a", "b", "c"]);
    assert_eq!(split("a  b", " "), ["a", "", "b"]);
    assert_eq!(split(" a ", " "), ["", "a", ""]);
    assert_eq!(split("", " "), [""]);
    assert_eq!(split("abc", " "), ["abc"]);
    assert_eq!(split("/echo/a/b", "/"), ["", "echo", "a", "b"]);
    assert_eq!(split("one\r\ntwo\r\n", "\r\n"), ["one", "two", ""]);
    assert_eq!(split("aaa", "aa"), ["", "a"]);
}

#[test]
fn split_agrees_with_str_split() {
    let texts = ["", "/", "//", "/a", "a/", "/a/b/", "a//b", "\r\n", "a\r\nb", "a\r\n\r\nb", "\r\r\n\n", "aaaa", "h\u{e9} llo w"];
    let pats = ["/", " ", "\r\n", "\r\n\r\n", "aa", "a"];
    for text in texts {
        for pat in pats {
            let expected: Vec<String> = text.split(pat).map(|piece| piece.to_string()).collect();
            assert_eq!(split(text, pat), expected, "{:?} at {:?}", text, pat);
        }
    }
}

#[test]
fn join_puts_the_separator_between() {
    assert_eq!(join(&[], "/"), "");
    assert_eq!(join(&["a"], "/"), "a");
    assert_eq!(join(&["a", "b", "c"], "/"), "a/b/c");
    assert_eq!(join(&["", ""], "/"), "/");
    assert_eq!(join(&["a", "", "b"], ", "), "a, , b");
    assert_eq!(join(&["a", "b"], ""), "ab");
}

#[test]
fn join_agrees_with_slice_join() {
    let lists: [&[&str]; 6] = [&[], &[""], &["a"], &["a", "b"], &["", "a", ""], &["x", "yy", "zzz", ""]];
    for parts in lists {
        for sep in ["/", "", "\r\n"] {
            assert_eq!(join(parts, sep), parts.join(sep), "{:?} with {:?}", parts, sep);
        }
    }
}

#[test]
fn append_adds_at_the_end() {
    let mut text = chars("ab");
    append(&mut text, &chars("cd"));
    assert_eq!(text, chars("abcd"));
    append(&mut text, &[]);
    assert_eq!(text, chars("abcd"));
}

#[test]
fn same_compares_by_character() {
    assert!(same(&chars(""), &chars("")));
    assert!(same(&chars("echo"), &chars("echo")));
    assert!(!same(&chars("echo"), &chars("Echo")));
    assert!(!same(&chars("echo"), &chars("echoes")));
    assert!(!same(&chars("echo"), &chars("ech")));
    assert!(!same(&chars("abc"), &chars("abd")));
}

#[test]
fn utf8_len_counts_bytes() {
    assert_eq!(utf8_len(&chars("")), 0);
    assert_eq!(utf8_len(&chars("abc")), 3);
    assert_eq!(utf8_len(&chars("\u{7f}")), 1);
    assert_eq!(utf8_len(&chars("\u{80}")), 2);
    assert_eq!(utf8_len(&chars("\u{7ff}")), 2);
    assert_eq!(utf8_len(&chars("\u{800}")), 3);
    assert_eq!(utf8_len(&chars("\u{ffff}")), 3);
    assert_eq!(utf8_len(&chars("\u{10000}")), 4);
    assert_eq!(utf8_len(&chars("\u{10ffff}")), 4);
    for text in ["h\u{e9}llo", "\u{4e16}\u{754c}", "a\u{1f600}b", "\u{fffd}\u{fffd}"] {
        assert_eq!(utf8_len(&chars(text)), text.len() as u128, "{:?}", text);
    }
}
