use commit_audit::lines::split_lines;
use commit_audit::lines::trim;
use commit_audit::text::chars_of;
use commit_audit::text::has_prefix;
use commit_audit::text::has_substring;
use commit_audit::text::is_whitespace;
use commit_audit::text::lowered_chars;
use commit_audit::text::matches_at;
use commit_audit::text::same_chars;
use commit_audit::text::string_of;

fn chars(text: &str) -> Vec<char> {
    text.chars().collect()
}

fn lines(text: &str) -> Vec<String> {
    split_lines(&chars(text)).iter().map(|line| line.iter().collect()).collect()
}

fn trimmed(text: &str) -> String {
    trim(&chars(text)).iter().collect()
}

#[test]
fn characters_and_strings_convert_both_ways() {
    assert_eq!(chars_of("héllo"), vec!['h', 'é', 'l', 'l', 'o']);
    assert_eq!(chars_of(""), Vec::<char>::new());
    assert_eq!(string_of(&['a', 'ß', '越']), "aß越");
    assert_eq!(string_of(&[]), "");
}

#[test]
fn lowering_follows_the_standard_library() {
    assert_eq!(lowered_chars("Jane@Example.COM"), chars("jane@example.com"));
    assert_eq!(lowered_chars("ÀÉÎ"), chars("àéî"));
    assert_eq!(lowered_chars("ὈΔΥΣΣΕΎΣ"), chars(&"ὈΔΥΣΣΕΎΣ".to_lowercase()));
}

#[test]
fn whitespace_is_what_the_standard_library_says() {
    let mut code: u32 = 0;
    while code <= 0x10FFFF {
        if let Some(c) = char::from_u32(code) {
            assert_eq!(is_whitespace(c), c.is_whitespace(), "U+{:04X}", code);
        }
        code += 1;
    }
}

#[test]
fn prefixes_and_positions() {
    let text = chars("reviewed-by: x");
    assert!(has_prefix(&text, &chars("reviewed-by:")));
    assert!(has_prefix(&text, &chars("")));
    assert!(!has_prefix(&text, &chars("eviewed")));
    assert!(!has_prefix(&chars("rev"), &chars("reviewed")));
    assert!(matches_at(&text, &chars("viewed"), 2));
    assert!(!matches_at(&text, &chars("viewed"), 3));
    assert!(matches_at(&text, &chars(""), 14));
    assert!(!matches_at(&text, &chars(""), 15));
    assert!(!matches_at(&text, &chars("x"), usize::MAX));
}

#[test]
fn substrings_are_found_as_the_standard_library_finds_them() {
    let cases = [
        ("jane@example.com", "example.com"),
        ("jane@example.com", "jane"),
        ("jane@example.com", "ne@ex"),
        ("jane@example.com", "examples"),
        ("aaab", "aab"),
        ("abc", "abcd"),
        ("abc", ""),
        ("", ""),
        ("", "a"),
        ("abab", "bab"),
    ];
    for (text, needle) in cases {
        assert_eq!(has_substring(&chars(text), &chars(needle)), text.contains(needle), "{text:?} {needle:?}");
    }
}

#[test]
fn same_characters() {
    assert!(same_chars(&chars("abc"), &chars("abc")));
    assert!(same_chars(&chars(""), &chars("")));
    assert!(!same_chars(&chars("abc"), &chars("abd")));
    assert!(!same_chars(&chars("abc"), &chars("ab")));
    assert!(!same_chars(&chars("ab"), &chars("abc")));
}

#[test]
fn trimming_removes_whitespace_at_both_ends_only() {
    assert_eq!(trimmed("  a b \t\r\n"), "a b");
    assert_eq!(trimmed("a"), "a");
    assert_eq!(trimmed(""), "");
    assert_eq!(trimmed(" \t \u{3000}"), "");
    assert_eq!(trimmed("\u{a0}x\u{2003}y\u{2028}"), "x\u{2003}y");
    for text in ["  a b \t\r\n", "x", "", "  ", "\u{85}k\u{1680}"] {
        assert_eq!(trimmed(text), text.trim());
    }
}

#[test]
fn lines_end_at_line_feeds() {
    assert_eq!(lines("a\nb"), vec!["a", "b"]);
    assert_eq!(lines("a\nb\n"), vec!["a", "b"]);
    assert_eq!(lines("a\n\nb"), vec!["a", "", "b"]);
    assert_eq!(lines("\n"), vec![""]);
    assert_eq!(lines("\n\n"), vec!["", ""]);
    assert_eq!(lines(""), Vec::<String>::new());
    assert_eq!(lines("one line"), vec!["one line"]);
}

#[test]
fn carriage_return_before_a_line_feed_is_dropped() {
    assert_eq!(lines("a\r\nb\r\n"), vec!["a", "b"]);
    assert_eq!(lines("a\r\r\nb"), vec!["a\r", "b"]);
    assert_eq!(lines("a\rb\nc\r"), vec!["a\rb", "c\r"]);
    assert_eq!(lines("\r\n"), vec![""]);
}

#[test]
fn lines_are_those_of_the_standard_library() {
    for text in ["foo\nbar\n\r\nbaz\r", "foo\r\nbar\n\nbaz\n", "", "\n", "x\r", "\r\n\r\n", "a\n\rb"] {
        let expected: Vec<String> = text.lines().map(|line| line.to_string()).collect();
        assert_eq!(lines(text), expected, "{text:?}");
    }
}
