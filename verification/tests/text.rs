use dispatch::text::{chars_of, decimal_string, has_substring, has_suffix, order_text, same_text, Order};

#[test]
fn chars_of_gives_the_characters() {
    assert_eq!(chars_of(""), Vec::<char>::new());
    assert_eq!(chars_of("a\u{e9}\u{1f600}"), vec!['a', '\u{e9}', '\u{1f600}']);
}

#[test]
fn same_text_compares_characters() {
    assert!(same_text("", ""));
    assert!(same_text("abc", "abc"));
    assert!(!same_text("abc", "abd"));
    assert!(!same_text("abc", "ab"));
    assert!(!same_text("ab", "abc"));
}

#[test]
fn has_suffix_on_edges() {
    assert!(has_suffix("abc", ""));
    assert!(has_suffix("abc", "c"));
    assert!(has_suffix("abc", "abc"));
    assert!(!has_suffix("abc", "xabc"));
    assert!(!has_suffix("abc", "ab"));
    assert!(has_suffix("", ""));
}

#[test]
fn has_substring_agrees_with_std() {
    let texts = ["", "a", "ab", "abc", "bc", "abcabc", "cab", "x", "\u{e9}t\u{e9}", "t\u{e9}", "\u{e9}"];
    for hay in texts {
        for needle in texts {
            assert_eq!(has_substring(hay, needle), hay.contains(needle));
        }
    }
}

#[test]
fn order_text_agrees_with_std() {
    let texts = ["", "a", "ab", "abc", "b", "B", "~", "\u{7f}", "\u{80}", "\u{e9}", "\u{ffff}", "\u{10000}", "a\u{10000}"];
    for a in texts {
        for b in texts {
            let expected = if a < b {
                Order::Less
            } else if a == b {
                Order::Equal
            } else {
                Order::Greater
            };
            assert_eq!(order_text(a, b), expected);
        }
    }
}

#[test]
fn decimal_string_writes_numerals() {
    assert_eq!(decimal_string(0), "0");
    assert_eq!(decimal_string(7), "7");
    assert_eq!(decimal_string(10), "10");
    assert_eq!(decimal_string(100), "100");
    assert_eq!(decimal_string(1234567890), "1234567890");
    assert_eq!(decimal_string(u64::MAX), "18446744073709551615");
}
