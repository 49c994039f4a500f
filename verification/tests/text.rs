use nscb_desktop::text::{
    chars_of, decimal_text, hex_text, joined, lowercase, same_text, starts_with, text_after_last,
    text_between,
};

#[test]
fn characters_and_ranges() {
    let chars = chars_of("a\u{e9}\u{1f600}b");
    assert_eq!(chars, vec!['a', '\u{e9}', '\u{1f600}', 'b']);
    assert_eq!(text_between(&chars, 1, 3), "\u{e9}\u{1f600}");
    assert_eq!(text_between(&chars, 2, 2), "");
}

#[test]
fn comparing_and_joining() {
    assert!(same_text("abc", "abc"));
    assert!(!same_text("abc", "abd"));
    assert!(!same_text("abc", "ab"));
    assert_eq!(joined("ab", "cd"), "abcd");
    assert_eq!(joined("", ""), "");
}

#[test]
fn prefixes() {
    assert!(starts_with("content://x", "content://"));
    assert!(starts_with("content://", "content://"));
    assert!(starts_with("x", ""));
    assert!(!starts_with("content:/", "content://"));
    assert!(!starts_with("Content://x", "content://"));
}

#[test]
fn lower_case_is_ascii_only() {
    assert_eq!(lowercase("NSCB_Rust.EXE"), "nscb_rust.exe");
    assert_eq!(lowercase("@[`{\u{c9}AZ"), "@[`{\u{c9}az");
    for c in (0u32..0x3000).filter_map(char::from_u32) {
        let one = c.to_string();
        assert_eq!(lowercase(&one), one.to_ascii_lowercase());
    }
}

#[test]
fn last_occurrence() {
    let path = chars_of("a/b/c");
    assert_eq!(text_after_last(&path, "/"), Some("c".to_string()));
    assert_eq!(text_after_last(&path, "%2F"), None);
    assert_eq!(text_after_last(&chars_of("a/"), "/"), Some(String::new()));
    assert_eq!(text_after_last(&chars_of("x"), "long"), None);
    assert_eq!(text_after_last(&chars_of("%2F%2Fb"), "%2F"), Some("b".to_string()));
}

#[test]
fn last_occurrence_is_the_last() {
    for text in ["", "/", "a/b", "//", "a%2Fb%2Fc", "%2F", "%2", "/a%2F"] {
        for pattern in ["/", "%2F", "a"] {
            let expected = text.rsplit_once(pattern).map(|(_, rest)| rest.to_string());
            assert_eq!(text_after_last(&chars_of(text), pattern), expected);
        }
    }
}

#[test]
fn decimal_numbers() {
    for n in [0u64, 1, 9, 10, 99, 100, 1_048_576, u64::MAX] {
        assert_eq!(decimal_text(n), n.to_string());
    }
    assert_ne!(decimal_text(12), decimal_text(21));
}

#[test]
fn hexadecimal_numbers() {
    for n in [0u64, 1, 0xabc, 0x0123_4567_89ab_cdef, u64::MAX] {
        assert_eq!(hex_text(n, 16), format!("{:016x}", n));
    }
    assert_eq!(hex_text(0xabcd, 2), "cd");
    assert_eq!(hex_text(5, 0), "");
}
