use clipboard_history::emoji::{EmojiManager, EmojiUsage, MAX_RECENT_EMOJIS};

fn usage(c: &str, count: u32, last: u64) -> EmojiUsage {
    EmojiUsage { char: c.to_string(), use_count: count, last_used: last }
}

#[test]
fn test_record_usage_and_ordering() {
    let mut manager = EmojiManager::new(Vec::new());

    manager.record_usage("A");
    manager.record_usage("B");
    manager.record_usage("A");

    let recent = manager.get_recent();
    assert_eq!(recent.len(), 2);

    assert_eq!(recent[0].char, "A");
    assert_eq!(recent[0].use_count, 2);

    assert_eq!(recent[1].char, "B");
    assert_eq!(recent[1].use_count, 1);
}

#[test]
fn test_lru_eviction() {
    let mut manager = EmojiManager::new(Vec::new());

    for i in 0..MAX_RECENT_EMOJIS + 5 {
        manager.record_usage(&format!("emoji_{}", i));
    }

    let recent = manager.get_recent();
    assert_eq!(recent.len(), MAX_RECENT_EMOJIS);
    assert_eq!(recent[0].char, format!("emoji_{}", MAX_RECENT_EMOJIS + 4));
}

#[test]
fn test_persistence() {
    let mut manager = EmojiManager::new(Vec::new());

    manager.record_usage("🚀");
    manager.record_usage("🦀");

    // a new manager built from what the first one would save
    let loaded_manager = EmojiManager::new(manager.get_recent());
    let recent = loaded_manager.get_recent();

    assert_eq!(recent.len(), 2);
    assert_eq!(recent[0].char, "🦀");
    assert_eq!(recent[1].char, "🚀");
}

#[test]
fn record_at_sets_time_and_count() {
    let mut m = EmojiManager::new(vec![usage("x", 4, 10), usage("y", 1, 20)]);
    m.record_usage_at("y", 99);
    let r = m.get_recent();
    assert_eq!(r[0].char, "y");
    assert_eq!(r[0].use_count, 2);
    assert_eq!(r[0].last_used, 99);
    assert_eq!(r[1].char, "x");
    let mut full = EmojiManager::new(vec![usage("z", u32::MAX, 1)]);
    full.record_usage_at("z", 2);
    assert_eq!(full.get_recent()[0].use_count, u32::MAX);
}

#[test]
fn saved_list_is_cut_to_capacity() {
    let saved: Vec<EmojiUsage> = (0..30).map(|i| usage(&format!("e{}", i), 1, i)).collect();
    let m = EmojiManager::new(saved);
    let r = m.get_recent();
    assert_eq!(r.len(), MAX_RECENT_EMOJIS);
    assert_eq!(r[0].char, "e0");
}

#[test]
fn top_used_ranks_by_count_then_recency() {
    let m = EmojiManager::new(vec![
        usage("a", 1, 50),
        usage("b", 3, 10),
        usage("c", 3, 30),
        usage("d", 2, 5),
    ]);
    let top: Vec<String> = m.get_top_used(3).into_iter().map(|u| u.char).collect();
    assert_eq!(top, vec!["c", "b", "d"]);
    assert_eq!(m.get_top_used(10).len(), 4);
    assert!(m.get_top_used(0).is_empty());
}
