use clipboard_history::focus::{next_class_step, next_wait_step, ClassStep, WaitStep};
use clipboard_history::history::{ClipboardContent, ClipboardItem};
use clipboard_history::config::{bottom_center, ConfigManager, WindowState};
use clipboard_history::focus::{find_window_by_title, is_focused_window_terminal, FocusError, FocusTracker};
use clipboard_history::history::ClipboardManager;
use clipboard_history::injector::{
    all_failed_message, needs_shift, paste_chord, uinput_keycode, xdotool_combo, xtest_event_type, xtest_keycode,
    CascadeStep, ChordKey, KeyEvent, PasteCascade, Strategy,
};
use clipboard_history::shortcuts::{escape_ron_string, escape_xml, has_mod_v_binding, ShortcutConfig, ShortcutError};
use clipboard_history::watcher::ClipboardWatcher;

fn config(args: &'static str) -> ShortcutConfig {
    ShortcutConfig {
        id: "penguinclip",
        name: "Clipboard History",
        command: "penguinclip",
        args,
        gnome_binding: "<Super>v",
        kde_binding: "Meta+V",
        xfce_binding: "<Super>v",
        cosmic_mods: "Super",
        cosmic_key: "v",
        i3_binding: "$mod+v",
        sway_binding: "$mod+v",
        hyprland_binding: "SUPER, V",
        lxde_binding: "W-v",
    }
}

#[test]
fn watcher_suppressed_then_admitted() {
    let mut store = ClipboardManager::new();
    let mut w = ClipboardWatcher::new();
    store.mark_text_as_pasted("X");
    assert!(w.poll_text(&mut store, "X".to_string(), None).is_none());
    assert!(store.get_history().is_empty());
    // the clipboard still holds X: no change, nothing handed over
    assert!(w.poll_text(&mut store, "X".to_string(), None).is_none());
    // X copied again after something else was observed
    let pixels = vec![0u8, 0, 0, 255];
    assert!(w.poll_image(&mut store, pixels, 1, 1).is_some());
    assert!(w.poll_text(&mut store, "X".to_string(), None).is_some());
    assert_eq!(store.get_history().len(), 2);
}

#[test]
fn watcher_markers_reset_each_other() {
    let mut w = ClipboardWatcher::new();
    assert!(!w.observe_text(""));
    assert!(w.observe_text("a"));
    assert!(!w.observe_text("a"));
    assert!(w.observe_image(5));
    assert!(w.last_text_hash.is_none());
    assert!(!w.observe_image(5));
    assert!(w.observe_text("a"));
    assert!(w.last_image_hash.is_none());
}

#[test]
fn focus_tracker_save_and_restore() {
    let mut f = FocusTracker::new();
    assert_eq!(f.restore_target(), Err(FocusError::NoWindowSaved));
    f.save_focused_window(0);
    assert_eq!(f.restore_target(), Err(FocusError::NoWindowSaved));
    f.save_focused_window(77);
    f.save_focused_window(88);
    assert_eq!(f.restore_target(), Ok(88));
    assert_eq!(FocusError::NoWindowSaved.message(), "No previous window saved");
}

#[test]
fn window_title_search() {
    let windows = vec![(1, "Terminal".to_string()), (2, "Clipboard History".to_string()), (3, "Clipboard History 2".to_string())];
    assert_eq!(find_window_by_title(&windows, "Clipboard"), Some(2));
    assert_eq!(find_window_by_title(&windows, "Settings"), None);
}

#[test]
fn terminal_classes() {
    assert!(is_focused_window_terminal("gnome-terminal-server\0Gnome-terminal\0"));
    assert!(is_focused_window_terminal("Alacritty"));
    assert!(is_focused_window_terminal("KONSOLE"));
    assert!(!is_focused_window_terminal("firefox\0Firefox\0"));
    assert!(!is_focused_window_terminal(""));
}

#[test]
fn chord_orders() {
    let plain = paste_chord(false);
    assert_eq!(
        plain,
        vec![
            KeyEvent { key: ChordKey::Control, press: true },
            KeyEvent { key: ChordKey::V, press: true },
            KeyEvent { key: ChordKey::V, press: false },
            KeyEvent { key: ChordKey::Control, press: false },
        ]
    );
    let shifted = paste_chord(true);
    assert_eq!(shifted.len(), 6);
    assert_eq!(shifted[1], KeyEvent { key: ChordKey::Shift, press: true });
    assert_eq!(shifted[4], KeyEvent { key: ChordKey::Shift, press: false });
    assert!(needs_shift(true, true));
    assert!(!needs_shift(false, true));
    assert_eq!(xtest_keycode(ChordKey::V), 55);
    assert_eq!(uinput_keycode(ChordKey::Control), 29);
    assert_eq!(xtest_event_type(false), 3);
    assert_eq!(xdotool_combo(true), "ctrl+shift+v");
}

#[test]
fn cascade_order() {
    let mut c = PasteCascade::new(true);
    assert_eq!(c.step(None), CascadeStep::Try(Strategy::Xdotool));
    assert_eq!(c.step(Some(false)), CascadeStep::Try(Strategy::XTest));
    assert_eq!(c.step(Some(false)), CascadeStep::Try(Strategy::Uinput));
    assert_eq!(c.step(Some(false)), CascadeStep::AllFailed);
    assert_eq!(all_failed_message(), "All paste methods failed");
    let mut w = PasteCascade::new(false);
    assert_eq!(w.step(None), CascadeStep::Try(Strategy::Uinput));
    assert_eq!(w.step(Some(true)), CascadeStep::Succeeded);
    let mut x = PasteCascade::new(true);
    assert_eq!(x.step(None), CascadeStep::Try(Strategy::Xdotool));
    assert_eq!(x.step(Some(true)), CascadeStep::Succeeded);
}

#[test]
fn class_search_steps() {
    assert_eq!(next_class_step(0, true, 5, 1), ClassStep::UseClass);
    assert_eq!(next_class_step(0, false, 5, 1), ClassStep::Ascend(5));
    assert_eq!(next_class_step(0, false, 1, 1), ClassStep::GiveUp);
    assert_eq!(next_class_step(0, false, 0, 1), ClassStep::GiveUp);
    assert_eq!(next_class_step(9, false, 5, 1), ClassStep::GiveUp);
    assert_eq!(next_class_step(8, false, 5, 1), ClassStep::Ascend(5));
}

#[test]
fn shortcut_command_and_errors() {
    assert_eq!(config("").full_command(), "penguinclip");
    assert_eq!(config("--emoji").full_command(), "penguinclip --emoji");
    let e = ShortcutError::CommandFailed { cmd: "gsettings".to_string(), stderr: "boom".to_string() };
    assert_eq!(e.message(), "Command 'gsettings' failed: boom");
    assert_eq!(ShortcutError::DependencyMissing("xdotool".to_string()).message(), "Missing dependency: xdotool");
}

#[test]
fn escapes() {
    assert_eq!(escape_xml("a<b>&\"c'"), "a&lt;b&gt;&amp;&quot;c&apos;");
    assert_eq!(escape_ron_string("say \"hi\"\n\\"), "say \\\"hi\\\"\\n\\\\");
}

#[test]
fn mod_v_lines() {
    assert!(has_mod_v_binding("bindsym $mod+v exec penguinclip"));
    assert!(has_mod_v_binding("bindsym mod4+v"));
    assert!(has_mod_v_binding("bindsym $mod+v;exec x"));
    assert!(!has_mod_v_binding("bindsym $mod+volume exec x"));
    assert!(!has_mod_v_binding("bindsym $mod+c kill"));
}

#[test]
fn window_placement() {
    let mut c = ConfigManager::new(WindowState::default());
    assert!(!c.needs_sync());
    c.update_state(Some("HDMI-1".to_string()), 10, 20);
    assert!(c.needs_sync());
    let s = c.get_state();
    assert_eq!((s.monitor_name.as_deref(), s.x, s.y), (Some("HDMI-1"), 10, 20));
    c.sync_finished(false);
    assert!(c.needs_sync());
    c.sync_finished(true);
    assert!(!c.needs_sync());
    assert_eq!(bottom_center(0, 0, 1920, 1080, 360, 480), (780, 555));
}

#[test]
fn window_wait_steps() {
    assert_eq!(next_wait_step(Some(4), 900, 500), WaitStep::Found(4));
    assert_eq!(next_wait_step(None, 100, 500), WaitStep::Poll);
    assert_eq!(next_wait_step(None, 500, 500), WaitStep::TimedOut);
}

#[test]
fn item_constructors() {
    let t = ClipboardItem::new_text("hello".to_string());
    assert!(matches!(t.content, ClipboardContent::Text(ref s) if s == "hello"));
    assert_eq!(t.preview, "hello");
    assert!(!t.pinned && !t.favorited);
    let i = ClipboardItem::new_image("AAAA".to_string(), 4, 5);
    assert_eq!(i.preview, "Image (4x5)");
    assert_ne!(t.id, i.id);
}
