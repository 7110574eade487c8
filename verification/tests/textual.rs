use giterdone::config::parse_roots;
use giterdone::text::{
    chars_of, contains, contains_word, ends_with, find_from, is_whitespace, replace,
    slice_contains, slice_matches_at, trim, trim_end,
};

#[test]
fn chars_of_counts_characters_not_bytes() {
    assert_eq!(chars_of("héllo"), vec!['h', 'é', 'l', 'l', 'o']);
    assert_eq!(chars_of(""), Vec::<char>::new());
}

#[test]
fn contains_finds_a_pattern_anywhere() {
    assert!(contains("! [rejected] main -> main (fetch first)", "rejected"));
    assert!(contains("abc", "abc"));
    assert!(contains("abc", "c"));
    assert!(contains("abc", ""));
    assert!(contains("", ""));
    assert!(!contains("abc", "abcd"));
    assert!(!contains("reject", "rejected"));
    assert!(!contains("", "a"));
}

#[test]
fn ends_with_tests_the_suffix() {
    assert!(ends_with("server.log", ".log"));
    assert!(!ends_with("server.log.gz", ".log"));
    assert!(!ends_with("log", ".log"));
    assert!(ends_with("x", ""));
}

#[test]
fn replace_swaps_every_occurrence() {
    assert_eq!(replace("a-b-c", "-", "+"), "a+b+c");
    assert_eq!(replace("aaa", "aa", "b"), "ba");
    assert_eq!(replace("abc", "x", "y"), "abc");
    assert_eq!(replace("", "x", "y"), "");
    assert_eq!(replace("xx", "x", "xx"), "xxxx");
    assert_eq!(replace("héllo wörld", "ö", "oe"), "héllo woerld");
    assert_eq!(replace("ab", "abc", "z"), "ab");
    assert_eq!(replace("ab", "", "z"), "ab");
}

#[test]
fn trim_end_drops_every_trailing_repetition() {
    assert_eq!(trim_end("repo.git", ".git"), "repo");
    assert_eq!(trim_end("repo.git.git", ".git"), "repo");
    assert_eq!(trim_end("repo", ".git"), "repo");
    assert_eq!(trim_end(".git", ".git"), "");
    assert_eq!(trim_end("my.github.io", ".git"), "my.github.io");
    assert_eq!(trim_end("", ".git"), "");
    assert_eq!(trim_end("repo", ""), "repo");
}

#[test]
fn white_space_is_what_unicode_says() {
    for n in 0..=0x10ffffu32 {
        if let Some(c) = char::from_u32(n) {
            assert_eq!(is_whitespace(c), c.is_whitespace(), "U+{:04X}", n);
        }
    }
}

#[test]
fn trim_drops_white_space_at_both_ends() {
    assert_eq!(trim("  /a/b \t\n"), "/a/b");
    assert_eq!(trim("/a b"), "/a b");
    assert_eq!(trim(" \u{3000}x\u{a0}"), "x");
    assert_eq!(trim("   "), "");
    assert_eq!(trim(""), "");
    for s in [" a ", "a", "\r\n a b \r\n", "\u{2003}é\u{2003}"] {
        assert_eq!(trim(s), s.trim());
    }
}

#[test]
fn find_from_stops_at_the_first_match() {
    let s: Vec<char> = "a,b,,c".chars().collect();
    assert_eq!(find_from(&s, ',', 0), 1);
    assert_eq!(find_from(&s, ',', 1), 1);
    assert_eq!(find_from(&s, ',', 2), 3);
    assert_eq!(find_from(&s, ',', 5), 6);
    assert_eq!(find_from(&s, ',', 6), 6);
    assert_eq!(find_from(&s, 'x', 0), 6);
    assert_eq!(find_from(&s, ',', 9), 9);
}

#[test]
fn slices_are_searched_like_strings() {
    let s: Vec<char> = "hello world".chars().collect();
    let w: Vec<char> = "world".chars().collect();
    assert!(slice_contains(&s, &w));
    assert!(!slice_contains(&w, &s));
    assert!(slice_matches_at(&s, &w, 6));
    assert!(!slice_matches_at(&s, &w, 5));
    assert!(!slice_matches_at(&s, &w, 7));
    assert!(!slice_matches_at(&s, &w, 100));
    assert!(slice_matches_at(&s, &[], 11));
    assert!(!slice_matches_at(&s, &[], 12));
}

#[test]
fn roots_are_read_from_a_comma_separated_list() {
    assert_eq!(parse_roots("/a/notes.txt, /home/u/docs ,/b"), vec!["/a/notes.txt", "/home/u/docs", "/b"]);
    assert_eq!(parse_roots("/a"), vec!["/a"]);
    assert_eq!(parse_roots(""), vec![""]);
    assert_eq!(parse_roots("/a,"), vec!["/a", ""]);
    assert_eq!(parse_roots(" , "), vec!["", ""]);
    for input in ["/x , /y,/z", ",,", "a b, c d ", "é,ü"] {
        let expected: Vec<String> = input.split(',').map(|s| s.trim().to_string()).collect();
        assert_eq!(parse_roots(input), expected);
    }
}

#[test]
fn words_are_bounded_by_white_space() {
    assert!(contains_word("a bc d", "bc"));
    assert!(contains_word("bc", "bc"));
    assert!(contains_word("a\tbc\n", "bc"));
    assert!(contains_word("abc bc", "bc"));
    assert!(contains_word("bcd bc", "bc"));
    assert!(!contains_word("abc", "bc"));
    assert!(!contains_word("bcd", "bc"));
    assert!(!contains_word("a bcd", "bc"));
    assert!(!contains_word("a b", ""));
    assert!(!contains_word("", ""));
    assert!(!contains_word("", "a"));
}
