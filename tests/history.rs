use clipboard_history::history::{ClipboardContent, ClipboardItem, ClipboardManager, PasteError};

fn text_of(item: &ClipboardItem) -> String {
    match &item.content {
        ClipboardContent::Text(t) => t.clone(),
        ClipboardContent::RichText { plain, .. } => plain.clone(),
        ClipboardContent::Image { .. } => String::from("<image>"),
    }
}

fn texts(m: &ClipboardManager) -> Vec<String> {
    m.get_history().iter().map(text_of).collect()
}

fn id_of(m: &ClipboardManager, text: &str) -> String {
    m.get_history().into_iter().find(|i| text_of(i) == text).unwrap().id
}

fn item(id: &str, text: &str, pinned: bool, favorited: bool, timestamp: i64) -> ClipboardItem {
    ClipboardItem {
        id: id.to_string(),
        content: ClipboardContent::Text(text.to_string()),
        timestamp,
        pinned,
        favorited,
        preview: text.to_string(),
        content_hash: None,
    }
}

#[test]
fn admit_a_b_a_moves_a_to_top() {
    let mut m = ClipboardManager::new();
    assert!(m.add_text("A".to_string(), None).is_some());
    assert!(m.add_text("B".to_string(), None).is_some());
    assert!(m.add_text("A".to_string(), None).is_some());
    assert_eq!(texts(&m), vec!["A", "B"]);
}

#[test]
fn max_size_two_evicts_oldest() {
    let mut m = ClipboardManager::with_max_size(2);
    m.add_text("A".to_string(), None);
    m.add_text("B".to_string(), None);
    m.add_text("C".to_string(), None);
    assert_eq!(texts(&m), vec!["C", "B"]);
}

#[test]
fn pinned_item_survives_eviction() {
    let mut m = ClipboardManager::with_max_size(2);
    m.add_text("B".to_string(), None);
    m.add_text("C".to_string(), None);
    assert_eq!(texts(&m), vec!["C", "B"]);
    let b = id_of(&m, "B");
    let pinned = m.toggle_pin(&b).unwrap();
    assert!(pinned.pinned);
    // pinning moves B to the end of the (empty) pinned group, i.e. the top
    assert_eq!(texts(&m), vec!["B", "C"]);
    m.add_text("D".to_string(), None);
    // C is evicted, B is kept although older; pinned entries stay first
    assert_eq!(texts(&m), vec!["B", "D"]);
    assert!(m.get_history()[0].pinned);
}

#[test]
fn pasted_text_is_suppressed_once() {
    let mut m = ClipboardManager::new();
    m.mark_text_as_pasted("X");
    assert!(m.add_text("X".to_string(), None).is_none());
    assert!(m.get_history().is_empty());
    let again = m.add_text("X".to_string(), None);
    assert!(again.is_some());
    assert_eq!(texts(&m), vec!["X"]);
}

#[test]
fn same_text_twice_stores_one_item() {
    let mut m = ClipboardManager::new();
    assert!(m.add_text("hello".to_string(), None).is_some());
    assert!(m.add_text("hello".to_string(), None).is_none());
    assert_eq!(texts(&m), vec!["hello"]);
}

#[test]
fn blank_text_is_rejected() {
    let mut m = ClipboardManager::new();
    assert!(m.add_text("   \n\t".to_string(), None).is_none());
    assert!(m.add_text(String::new(), None).is_none());
    assert!(m.get_history().is_empty());
}

#[test]
fn html_gives_rich_text_and_blank_html_gives_text() {
    let mut m = ClipboardManager::new();
    let rich = m.add_text("bold".to_string(), Some("<b>bold</b>".to_string())).unwrap();
    match rich.content {
        ClipboardContent::RichText { plain, html } => {
            assert_eq!(plain, "bold");
            assert_eq!(html, "<b>bold</b>");
        }
        _ => panic!("expected rich text"),
    }
    let plain = m.add_text("plain".to_string(), Some("  ".to_string())).unwrap();
    assert!(matches!(plain.content, ClipboardContent::Text(ref t) if t == "plain"));
    assert!(!plain.pinned && !plain.favorited);
    assert_eq!(plain.content_hash, None);
}

#[test]
fn long_text_preview_is_truncated() {
    let mut m = ClipboardManager::new();
    let long: String = "x".repeat(150);
    let it = m.add_text(long, None).unwrap();
    assert_eq!(it.preview, format!("{}...", "x".repeat(100)));
    let short = m.add_text("short".to_string(), None).unwrap();
    assert_eq!(short.preview, "short");
}

#[test]
fn top_text_readmitted_is_already_current() {
    let mut m = ClipboardManager::new();
    m.add_text("A".to_string(), None);
    m.add_text("B".to_string(), None);
    let b = id_of(&m, "B");
    m.remove_item(&b);
    // A is the top entry but not the last admitted text
    assert!(m.add_text("A".to_string(), None).is_none());
    assert_eq!(texts(&m), vec!["A"]);
    // and the rapid guard now remembers A
    assert!(m.add_text("A".to_string(), None).is_none());
}

#[test]
fn favorite_does_not_reorder_and_survives_clear() {
    let mut m = ClipboardManager::new();
    m.add_text("one".to_string(), None);
    m.add_text("two".to_string(), None);
    m.add_text("three".to_string(), None);
    let one = id_of(&m, "one");
    let fav = m.toggle_favorite(&one).unwrap();
    assert!(fav.favorited);
    assert_eq!(texts(&m), vec!["three", "two", "one"]);
    m.clear();
    assert_eq!(texts(&m), vec!["one"]);
    assert!(m.toggle_favorite("missing").is_none());
}

#[test]
fn favorited_item_is_not_evicted() {
    let mut m = ClipboardManager::with_max_size(2);
    m.add_text("old".to_string(), None);
    let old = id_of(&m, "old");
    m.toggle_favorite(&old);
    m.add_text("mid".to_string(), None);
    m.add_text("new".to_string(), None);
    assert_eq!(texts(&m), vec!["new", "old"]);
}

#[test]
fn admission_when_all_protected_keeps_them() {
    let mut m = ClipboardManager::with_max_size(2);
    m.add_text("a".to_string(), None);
    m.add_text("b".to_string(), None);
    let a = id_of(&m, "a");
    let b = id_of(&m, "b");
    m.toggle_pin(&a);
    m.toggle_pin(&b);
    assert_eq!(texts(&m), vec!["a", "b"]);
    // the new entry is the only one that may go
    m.add_text("c".to_string(), None);
    assert_eq!(texts(&m), vec!["a", "b"]);
}

#[test]
fn unpin_moves_to_first_unpinned_slot() {
    let mut m = ClipboardManager::new();
    m.add_text("a".to_string(), None);
    m.add_text("b".to_string(), None);
    m.add_text("c".to_string(), None);
    let a = id_of(&m, "a");
    let b = id_of(&m, "b");
    m.toggle_pin(&a);
    m.toggle_pin(&b);
    assert_eq!(texts(&m), vec!["a", "b", "c"]);
    let unpinned = m.toggle_pin(&a).unwrap();
    assert!(!unpinned.pinned);
    assert_eq!(texts(&m), vec!["b", "a", "c"]);
    assert!(m.toggle_pin("nope").is_none());
}

#[test]
fn remove_and_get_item() {
    let mut m = ClipboardManager::new();
    m.add_text("keep".to_string(), None);
    m.add_text("drop".to_string(), None);
    let d = id_of(&m, "drop");
    assert!(m.get_item(&d).is_some());
    m.remove_item(&d);
    assert!(m.get_item(&d).is_none());
    assert_eq!(texts(&m), vec!["keep"]);
}

#[test]
fn move_to_top_respects_groups() {
    let mut m = ClipboardManager::new();
    for t in ["p1", "p2", "u1", "u2"] {
        m.add_text(t.to_string(), None);
    }
    let p1 = id_of(&m, "p1");
    let p2 = id_of(&m, "p2");
    m.toggle_pin(&p1);
    m.toggle_pin(&p2);
    assert_eq!(texts(&m), vec!["p1", "p2", "u2", "u1"]);
    assert!(m.move_item_to_top(&p2));
    assert_eq!(texts(&m), vec!["p2", "p1", "u2", "u1"]);
    let u1 = id_of(&m, "u1");
    assert!(m.move_item_to_top(&u1));
    assert_eq!(texts(&m), vec!["p2", "p1", "u1", "u2"]);
    assert!(!m.move_item_to_top("gone"));
}

#[test]
fn cleanup_drops_only_old_unprotected() {
    let saved = vec![
        item("1", "fresh", false, false, 10_000_000),
        item("2", "stale", false, false, 1_000),
        item("3", "stale-fav", false, true, 1_000),
    ];
    let (mut m, trimmed) = ClipboardManager::from_saved(saved, 50);
    assert!(!trimmed);
    assert_eq!(m.cleanup_older_than(0, 10_000_000), 0);
    assert_eq!(m.get_history().len(), 3);
    // cutoff = 10_000_000 - 60 * 60_000 = 6_400_000
    assert_eq!(m.cleanup_older_than(60, 10_000_000), 1);
    assert_eq!(texts(&m), vec!["fresh", "stale-fav"]);
}

#[test]
fn cleanup_by_clock_keeps_recent_items() {
    let mut m = ClipboardManager::new();
    m.add_text("now".to_string(), None);
    assert_eq!(m.cleanup_old_items(5), 0);
    assert_eq!(texts(&m), vec!["now"]);
}

#[test]
fn set_max_size_clamps_and_respects_protected() {
    let mut m = ClipboardManager::new();
    for t in ["a", "b", "c", "d"] {
        m.add_text(t.to_string(), None);
    }
    let a = id_of(&m, "a");
    let b = id_of(&m, "b");
    m.toggle_pin(&a);
    m.toggle_favorite(&b);
    // two protected entries: a request for 1 becomes 2
    assert!(m.set_max_history_size(1));
    assert_eq!(m.max_history_size(), 2);
    assert_eq!(texts(&m), vec!["a", "b"]);
    assert!(!m.set_max_history_size(0));
    assert_eq!(m.max_history_size(), 50);
    m.set_max_history_size(1_000_000);
    assert_eq!(m.max_history_size(), 100_000);
}

#[test]
fn reload_puts_pinned_first_and_trims() {
    let saved = vec![
        item("1", "u1", false, false, 1),
        item("2", "p1", true, false, 2),
        item("3", "u2", false, true, 3),
        item("4", "p2", true, false, 4),
        item("5", "u3", false, false, 5),
    ];
    let (m, trimmed) = ClipboardManager::from_saved(saved.clone(), 50);
    assert!(!trimmed);
    assert_eq!(texts(&m), vec!["p1", "p2", "u1", "u2", "u3"]);
    let (m2, trimmed2) = ClipboardManager::from_saved(saved, 2);
    assert!(trimmed2);
    // three protected entries raise the bound to 3
    assert_eq!(m2.max_history_size(), 3);
    assert_eq!(texts(&m2), vec!["p1", "p2", "u2"]);
}

#[test]
fn paste_item_arms_suppression_and_reports_missing() {
    let mut m = ClipboardManager::new();
    m.add_text("first".to_string(), None);
    m.add_text("second".to_string(), None);
    let first = id_of(&m, "first");
    let it = m.paste_item(&first).unwrap();
    assert_eq!(text_of(&it), "first");
    // the watcher then sees "first" on the clipboard: suppressed once
    assert!(m.add_text("first".to_string(), None).is_none());
    assert!(m.move_item_to_top(&first));
    assert_eq!(texts(&m), vec!["first", "second"]);
    assert_eq!(m.paste_item("missing").unwrap_err(), PasteError::NotFound);
}

#[test]
fn image_admission_encodes_png_and_dedups() {
    let mut m = ClipboardManager::new();
    let pixels = vec![255u8, 0, 0, 255, 0, 255, 0, 255];
    let it = m.add_image(pixels.clone(), 2, 1, 42).unwrap();
    assert_eq!(it.preview, "Image (2x1)");
    assert_eq!(it.content_hash, Some(42));
    match &it.content {
        ClipboardContent::Image { base64, width, height } => {
            assert_eq!((*width, *height), (2, 1));
            // base64 of a PNG starts with the encoded signature
            assert!(base64.starts_with("iVBORw0KGgo"));
        }
        _ => panic!("expected image"),
    }
    // same image again at the top: not admitted
    assert!(m.add_image(pixels.clone(), 2, 1, 42).is_none());
    // too few bytes for the size: not admitted
    assert!(m.add_image(vec![1, 2, 3], 2, 2, 7).is_none());
    // suppression of a pasted image is one-shot
    let mut m2 = ClipboardManager::new();
    m2.mark_as_pasted(&it);
    assert!(m2.add_image(pixels.clone(), 2, 1, 42).is_none());
    assert!(m2.add_image(pixels, 2, 1, 42).is_some());
}

#[test]
fn mark_as_pasted_text_item() {
    let mut m = ClipboardManager::new();
    let it = item("9", "copied", false, false, 0);
    m.mark_as_pasted(&it);
    assert!(m.add_text("copied".to_string(), None).is_none());
    assert!(m.add_text("copied".to_string(), None).is_some());
}

#[test]
fn readmitted_text_replaces_favorited_unpinned_copy() {
    let mut m = ClipboardManager::new();
    m.add_text("same".to_string(), None);
    let first = id_of(&m, "same");
    m.toggle_favorite(&first);
    m.add_text("other".to_string(), None);
    m.add_text("same".to_string(), None);
    assert_eq!(texts(&m), vec!["same", "other"]);
    assert!(m.get_item(&first).is_none());
}

#[test]
fn readmitted_text_keeps_pinned_copy() {
    let mut m = ClipboardManager::new();
    m.add_text("same".to_string(), None);
    let first = id_of(&m, "same");
    m.toggle_pin(&first);
    m.add_text("other".to_string(), None);
    m.add_text("same".to_string(), None);
    assert_eq!(texts(&m), vec!["same", "same", "other"]);
    assert!(m.get_history()[0].pinned);
}

#[test]
fn malformed_pixel_buffers_are_not_admitted() {
    let mut m = ClipboardManager::new();
    // one byte too many for a 1x1 image
    assert!(m.add_image(vec![0, 0, 0, 255, 9], 1, 1, 1).is_none());
    // zero width: the encoder refuses it
    assert!(m.add_image(Vec::new(), 0, 3, 2).is_none());
    assert!(m.get_history().is_empty());
    assert!(m.add_image(vec![0, 0, 0, 255], 1, 1, 3).is_some());
}

#[test]
fn finish_paste_moves_to_top_and_keeps_outcome() {
    let mut m = ClipboardManager::new();
    m.add_text("old".to_string(), None);
    m.add_text("new".to_string(), None);
    let old = id_of(&m, "old");
    assert_eq!(m.finish_paste(&old, Err("All paste methods failed".to_string())), Err("All paste methods failed".to_string()));
    assert_eq!(texts(&m), vec!["old", "new"]);
    assert_eq!(m.finish_paste("missing", Ok(())), Ok(()));
    assert_eq!(texts(&m), vec!["old", "new"]);
}

#[test]
fn history_never_exceeds_bound() {
    let mut m = ClipboardManager::with_max_size(3);
    for i in 0..10 {
        m.add_text(format!("t{}", i), None);
        assert!(m.get_history().len() <= 3);
    }
    let a = id_of(&m, "t9");
    m.toggle_favorite(&a);
    let b = id_of(&m, "t8");
    m.toggle_pin(&b);
    m.add_text("x".to_string(), None);
    assert!(m.get_history().len() <= 3);
}

#[test]
fn stored_image_decodes_back_to_pixels() {
    let mut m = ClipboardManager::new();
    let pixels = vec![10u8, 20, 30, 255, 40, 50, 60, 255];
    let it = m.add_image(pixels.clone(), 2, 1, 77).unwrap();
    match it.content {
        ClipboardContent::Image { base64, .. } => {
            assert_eq!(clipboard_history::media::image_pixels(&base64), Some(pixels));
        }
        _ => panic!("expected image"),
    }
    assert_eq!(clipboard_history::media::image_pixels("not base64!"), None);
}
