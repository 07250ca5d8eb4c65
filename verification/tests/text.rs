use forwarder::text::{
    append_chars, append_range, chars_of, contains_chars, find, has_prefix, has_suffix, matches_at,
    replace_all, same_chars, same_text, string_of, string_of_range, text_ends_with,
    text_starts_with,
};

fn replaced(text: &str, pattern: &str, with: &str) -> String {
    string_of(&replace_all(&chars_of(text), &chars_of(pattern), &chars_of(with)))
}

#[test]
fn chars_and_strings_convert_both_ways() {
    assert_eq!(chars_of("aé播"), vec!['a', 'é', '播']);
    assert_eq!(chars_of(""), Vec::<char>::new());
    assert_eq!(string_of(&['a', 'é', '播']), "aé播");
    assert_eq!(string_of_range(&chars_of("hello"), 1, 4), "ell");
    assert_eq!(string_of_range(&chars_of("hello"), 2, 2), "");
}

#[test]
fn appending_keeps_what_was_there() {
    let mut out = chars_of("ab");
    append_chars(&mut out, &chars_of("cd"));
    append_range(&mut out, &chars_of("01234"), 1, 3);
    assert_eq!(string_of(&out), "abcd12");
}

#[test]
fn patterns_are_found_at_their_first_place() {
    let text = chars_of("abcabc");
    assert!(matches_at(&text, &chars_of("bc"), 1));
    assert!(!matches_at(&text, &chars_of("bc"), 2));
    assert!(!matches_at(&text, &chars_of("bc"), 5));
    assert!(matches_at(&text, &chars_of(""), 6));
    assert!(!matches_at(&text, &chars_of(""), 7));
    assert_eq!(find(&text, &chars_of("bc"), 0), Some(1));
    assert_eq!(find(&text, &chars_of("bc"), 2), Some(4));
    assert_eq!(find(&text, &chars_of("bc"), 5), None);
    assert_eq!(find(&text, &chars_of("x"), 0), None);
    assert_eq!(find(&text, &chars_of("abcabcd"), 0), None);
    assert!(contains_chars(&text, &chars_of("ca")));
    assert!(!contains_chars(&text, &chars_of("cb")));
}

#[test]
fn beginnings_and_endings_are_compared() {
    assert!(has_prefix(&chars_of("/r/a.mp3"), &chars_of("/r")));
    assert!(!has_prefix(&chars_of("/a"), &chars_of("/r")));
    assert!(has_suffix(&chars_of("/r/a.mp3"), &chars_of("mp3")));
    assert!(!has_suffix(&chars_of("p3"), &chars_of("mp3")));
    assert!(text_starts_with("abc", ""));
    assert!(text_ends_with("abc", ""));
    assert!(text_starts_with("abc", "abc"));
    assert!(!text_starts_with("abc", "abcd"));
    assert!(same_text("é", "é"));
    assert!(!same_text("a", "ab"));
    assert!(same_chars(&[], &[]));
    assert!(!same_chars(&['a'], &['b']));
}

#[test]
fn every_occurrence_is_replaced_from_the_left() {
    assert_eq!(replaced("abcabc", "b", "xy"), "axycaxyc");
    assert_eq!(replaced("aaa", "aa", "b"), "ba");
    assert_eq!(replaced("abc", "abc", ""), "");
    assert_eq!(replaced("abc", "", "x"), "abc");
    assert_eq!(replaced("", "a", "x"), "");
    assert_eq!(replaced("abc", "d", "x"), "abc");
    assert_eq!(replaced("a-b-c", "-", "--"), "a--b--c");
    assert_eq!(replaced("éaé", "é", "e"), "eae");
}

#[test]
fn replacing_agrees_with_the_standard_library() {
    let texts = ["", "a", "aaaa", "abab", "xabcabcx", "aabaab", "ééé", "a\nb\na"];
    let patterns = ["a", "aa", "ab", "abc", "b", "é\u{e9}", "\n", "x"];
    let withs = ["", "a", "zz", "ab"];
    for text in texts {
        for pattern in patterns {
            for with in withs {
                assert_eq!(replaced(text, pattern, with), text.replace(pattern, with));
            }
        }
    }
}
