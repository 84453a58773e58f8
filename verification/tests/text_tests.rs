use mash::text::{
    after_prefix, chars_of, chain, decimal_of, decimal_of_signed, find_in, frame, is_whitespace,
    join_with, occurs_at, same, slice, split_lines, starts_with, string_of, strip_trailing, trimmed,
    trimmed_start,
};

fn strings(items: &[&str]) -> Vec<String> {
    items.iter().map(|s| s.to_string()).collect()
}

#[test]
fn split_lines_follows_the_line_endings() {
    assert_eq!(split_lines(""), Vec::<String>::new());
    assert_eq!(split_lines("a"), strings(&["a"]));
    assert_eq!(split_lines("a\n"), strings(&["a"]));
    assert_eq!(split_lines("a\nb"), strings(&["a", "b"]));
    assert_eq!(split_lines("a\r\nb\r\n"), strings(&["a", "b"]));
    assert_eq!(split_lines("\n\nx"), strings(&["", "", "x"]));
    assert_eq!(split_lines("a\rb\nc\r"), strings(&["a\rb", "c\r"]));
    assert_eq!(split_lines("\r\n"), strings(&[""]));
}

#[test]
fn split_lines_agrees_with_std() {
    for text in ["", "x", "x\n", "\n", "a\r\n\r\nb", "a\n\rb\r", "é\nü\r\n", "\r", "a\r\r\nb"] {
        let expected: Vec<String> = text.lines().map(|l| l.to_string()).collect();
        assert_eq!(split_lines(text), expected, "{:?}", text);
    }
}

#[test]
fn join_with_puts_the_separator_between() {
    assert_eq!(join_with(&strings(&[]), ", "), "");
    assert_eq!(join_with(&strings(&["a"]), ", "), "a");
    assert_eq!(join_with(&strings(&["a", "b", "c"]), ", "), "a, b, c");
    assert_eq!(join_with(&strings(&["", ""]), "-"), "-");
}

#[test]
fn trimmed_drops_white_space_at_both_ends() {
    assert_eq!(trimmed("  a b \t\n"), "a b");
    assert_eq!(trimmed("\u{3000}x\u{a0}"), "x");
    assert_eq!(trimmed("   "), "");
    assert_eq!(trimmed(""), "");
    assert_eq!(trimmed_start("  a  "), "a  ");
}

#[test]
fn whitespace_agrees_with_std() {
    for code in 0u32..0x3100 {
        if let Some(c) = char::from_u32(code) {
            assert_eq!(is_whitespace(c), c.is_whitespace(), "U+{:04X}", code);
        }
    }
}

#[test]
fn decimal_of_writes_numbers() {
    assert_eq!(decimal_of(0), "0");
    assert_eq!(decimal_of(7), "7");
    assert_eq!(decimal_of(10), "10");
    assert_eq!(decimal_of(1234567890), "1234567890");
    assert_eq!(decimal_of(u64::MAX), "18446744073709551615");
    assert_eq!(decimal_of_signed(-1), "-1");
    assert_eq!(decimal_of_signed(0), "0");
    assert_eq!(decimal_of_signed(42), "42");
    assert_eq!(decimal_of_signed(i64::MIN), "-9223372036854775808");
    assert_eq!(decimal_of_signed(i64::MAX), "9223372036854775807");
}

#[test]
fn find_in_gives_the_first_occurrence() {
    let text = chars_of("a__b__c");
    let pattern = chars_of("__");
    assert_eq!(find_in(&text, &pattern, 0), Some(1));
    assert_eq!(find_in(&text, &pattern, 2), Some(4));
    assert_eq!(find_in(&text, &pattern, 5), None);
    assert_eq!(find_in(&text, &chars_of(""), 7), Some(7));
    assert_eq!(find_in(&text, &chars_of(""), 8), None);
    assert_eq!(find_in(&chars_of("_"), &pattern, 0), None);
    assert!(occurs_at(&text, 4, &pattern));
    assert!(!occurs_at(&text, 5, &pattern));
    assert!(!occurs_at(&text, 6, &pattern));
}

#[test]
fn pieces_of_text() {
    let text = chars_of("héllo");
    assert_eq!(text.len(), 5);
    assert_eq!(string_of(&text, 1, 3), "él");
    assert_eq!(slice(&text, 3, 5), vec!['l', 'o']);
    assert_eq!(chain("ab", "cd"), "abcd");
    assert_eq!(frame("<", "x", ">"), "<x>");
    assert_eq!(strip_trailing("http://h//", '/'), "http://h");
    assert_eq!(strip_trailing("///", '/'), "");
    assert_eq!(strip_trailing("abc", '/'), "abc");
}

#[test]
fn comparing_text() {
    assert!(same("abc", "abc"));
    assert!(!same("abc", "abd"));
    assert!(!same("abc", "ab"));
    assert!(!same("ab", "abc"));
    assert!(same("", ""));
    assert!(starts_with("name: x", "name:"));
    assert!(!starts_with("nam", "name:"));
    assert!(starts_with("x", ""));
    assert_eq!(after_prefix("name: x", "name:"), Some(" x".to_string()));
    assert_eq!(after_prefix("title: x", "name:"), None);
}
