use clipboard_history::conflicts::{detect_shortcut_conflicts, ShortcutConflict, ShortcutTools, ShortcutToolsStatus};
use clipboard_history::permissions::PermissionStatus;

fn tools(gsettings: bool, kde: bool, xfce: bool) -> ShortcutTools {
    ShortcutTools { gsettings, dconf: false, kwriteconfig5: kde, kwriteconfig6: false, xfconf_query: xfce }
}

#[test]
fn permission_suggestions() {
    let ok = PermissionStatus::from_probe(true, false);
    assert_eq!(ok.suggestion, "Permissions OK! Paste simulation will work.");
    assert_eq!(ok.uinput_path, "/dev/uinput");
    let relog = PermissionStatus::from_probe(false, true);
    assert!(relog.suggestion.contains("Try logging out and back in."));
    let missing = PermissionStatus::from_probe(false, false);
    assert!(missing.suggestion.starts_with("Missing permissions."));
}

#[test]
fn registration_capability() {
    let none = detect_shortcut_conflicts("GNOME".to_string(), Vec::new());
    let g = ShortcutToolsStatus::new("GNOME".to_string(), tools(false, false, false), String::new(), &none);
    assert!(!g.can_register_automatically);
    let g2 = ShortcutToolsStatus::new("GNOME".to_string(), tools(true, false, false), String::new(), &none);
    assert!(g2.can_register_automatically);
    let k = ShortcutToolsStatus::new("KDE Plasma".to_string(), tools(true, false, false), String::new(), &none);
    assert!(!k.can_register_automatically);
    let i3 = ShortcutToolsStatus::new("i3".to_string(), tools(false, false, false), String::new(), &none);
    assert!(i3.can_register_automatically);
    let other = ShortcutToolsStatus::new("LXQT?".to_string(), tools(true, false, false), String::new(), &none);
    assert!(other.can_register_automatically);
    let one = detect_shortcut_conflicts(
        "XFCE".to_string(),
        vec![ShortcutConflict {
            binding: "<Super>v".to_string(),
            current_action: "x".to_string(),
            owner: "XFCE".to_string(),
            resolution_command: None,
            resolution_steps: String::new(),
        }],
    );
    let x = ShortcutToolsStatus::new("XFCE".to_string(), tools(false, false, true), String::new(), &one);
    assert!(x.can_register_automatically);
    assert!(x.has_conflicts);
    assert_eq!(x.conflict_count, 1);
    assert!(!x.can_auto_resolve_conflicts);
}
