use clipboard_history::text::{chars_of, trim_chars};
use clipboard_history::fingerprint::{hash_bytes, hash_text};
use clipboard_history::format::{image_preview, text_preview};
use clipboard_history::text::{is_blank, str_contains};

#[test]
fn fnv_known_values() {
    assert_eq!(hash_bytes(&[]), 0xcbf29ce484222325);
    assert_eq!(hash_text("a"), 0xaf63dc4c8601ec8c);
    assert_eq!(hash_text("foobar"), 0x85944171f73967e8);
    assert_ne!(hash_text("a"), hash_text("b"));
}

#[test]
fn blankness() {
    assert!(is_blank(""));
    assert!(is_blank(" \t\r\n\u{a0}\u{3000}"));
    assert!(!is_blank("  x "));
}

#[test]
fn substring_search() {
    assert!(str_contains("hello world", "o w"));
    assert!(str_contains("abc", ""));
    assert!(!str_contains("abc", "abcd"));
    assert!(!str_contains("", "a"));
}

#[test]
fn previews() {
    assert_eq!(image_preview(1920, 1080), "Image (1920x1080)");
    assert_eq!(image_preview(0, 7), "Image (0x7)");
    let long: String = "é".repeat(101);
    assert_eq!(text_preview(&long), format!("{}...", "é".repeat(100)));
    assert_eq!(text_preview("ok"), "ok");
}

#[test]
fn trimming() {
    let t: String = trim_chars(&chars_of("  a b\t\n")).into_iter().collect();
    assert_eq!(t, "a b");
    let e: String = trim_chars(&chars_of(" \t ")).into_iter().collect();
    assert_eq!(e, "");
}
