use studio_core::text::{contains_str, is_blank, replace, same_text, trimmed};

#[test]
fn trimming_follows_unicode_whitespace() {
    assert_eq!(trimmed("  a b \t\n"), "a b");
    assert_eq!(trimmed("\u{3000}x\u{a0}"), "x");
    assert_eq!(trimmed(""), "");
    assert!(is_blank(" \u{2003}\r\n"));
    assert!(!is_blank(" . "));
}

#[test]
fn search_and_replace() {
    assert!(contains_str("abc", ""));
    assert!(contains_str("xx aac yy", " aac "));
    assert!(!contains_str("aa", "aaa"));
    assert_eq!(replace("aaaa", "aa", "b"), "bb");
    assert_eq!(replace("abcabc", "bc", "[x]"), "a[x]a[x]");
    assert!(same_text("é", "é"));
    assert!(!same_text("a", "ab"));
}
