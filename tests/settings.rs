use clipboard_history::history::{ClipboardContent, ClipboardManager};
use clipboard_history::hotkeys::{HotKey, HotkeyAction, HotkeyState};
use clipboard_history::rendering::RenderingEnv;
use clipboard_history::settings::{
    auto_delete_interval_in_minutes, parse_delete_unit, parse_theme_mode, validate_max_history_size, DeleteUnit,
    ThemeMode,
};

#[test]
fn hotkey_recognition() {
    let mut st = HotkeyState::new();
    assert_eq!(st.on_key(HotKey::V, true), None);
    assert_eq!(st.on_key(HotKey::Super, true), None);
    assert_eq!(st.on_key(HotKey::V, true), Some(HotkeyAction::Toggle));
    assert_eq!(st.on_key(HotKey::Super, false), None);
    assert_eq!(st.on_key(HotKey::V, true), None);
    st.on_key(HotKey::Control, true);
    assert_eq!(st.on_key(HotKey::V, true), None);
    st.on_key(HotKey::Alt, true);
    assert_eq!(st.on_key(HotKey::V, true), Some(HotkeyAction::Toggle));
    assert_eq!(st.on_key(HotKey::V, false), None);
    assert_eq!(st.on_key(HotKey::Escape, true), Some(HotkeyAction::Close));
}

#[test]
fn delete_interval_units() {
    assert_eq!(parse_delete_unit("minutes"), DeleteUnit::Minutes);
    assert_eq!(parse_delete_unit("weeks"), DeleteUnit::Weeks);
    assert_eq!(parse_delete_unit("fortnights"), DeleteUnit::Hours);
    assert_eq!(auto_delete_interval_in_minutes(0, DeleteUnit::Days), 0);
    assert_eq!(auto_delete_interval_in_minutes(3, DeleteUnit::Hours), 180);
    assert_eq!(auto_delete_interval_in_minutes(2, DeleteUnit::Days), 2880);
    assert_eq!(auto_delete_interval_in_minutes(1, DeleteUnit::Weeks), 10080);
    assert_eq!(auto_delete_interval_in_minutes(u64::MAX / 2, DeleteUnit::Hours), u64::MAX);
}

#[test]
fn theme_mode_and_size_validation() {
    assert_eq!(parse_theme_mode("dark"), ThemeMode::Dark);
    assert_eq!(parse_theme_mode("invalid"), ThemeMode::System);
    assert_eq!(validate_max_history_size(0), 50);
    assert_eq!(validate_max_history_size(7), 7);
    assert_eq!(validate_max_history_size(usize::MAX), 100_000);
}

#[test]
fn rendering_reasons() {
    let both = RenderingEnv::from_detection(true, true);
    assert!(both.transparency_disabled);
    assert_eq!(both.reason, "Transparency is not supported on NVIDIA GPUs running via AppImage.");
    let none = RenderingEnv::from_detection(false, false);
    assert!(!none.transparency_disabled);
    assert_eq!(none.reason, "");
    assert_eq!(
        RenderingEnv::from_detection(false, true).reason,
        "Transparency is not supported when running as an AppImage."
    );
}

#[test]
fn encoded_image_admission() {
    let mut m = ClipboardManager::new();
    assert!(m.image_admissible(9));
    assert!(m.admit_encoded_image(None, 1, 1, 9, "id-0".to_string(), 0).is_none());
    assert!(m.get_history().is_empty());
    let it = m.admit_encoded_image(Some(vec![1, 2, 3]), 3, 4, 9, "id-1".to_string(), 1234).unwrap();
    assert_eq!(it.id, "id-1");
    assert_eq!(it.timestamp, 1234);
    assert_eq!(it.preview, "Image (3x4)");
    match it.content {
        ClipboardContent::Image { base64, .. } => assert_eq!(base64, "AQID"),
        _ => panic!("expected image"),
    }
    assert!(!m.image_admissible(9));
}

#[test]
fn fresh_ids_are_distinct_uuids() {
    let mut m = ClipboardManager::new();
    let a = m.add_text("a".to_string(), None).unwrap();
    let b = m.add_text("b".to_string(), None).unwrap();
    assert_eq!(a.id.len(), 36);
    assert_ne!(a.id, b.id);
    assert!(a.timestamp > 1_600_000_000_000);
}
