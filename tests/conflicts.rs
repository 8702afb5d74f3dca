use clipboard_history::conflicts::{
    cosmic_custom_conflicts, cosmic_system_conflicts, hyprland_line_conflicts, kde_conflicting_actions, klipper_conflicts,
    tiling_line_conflicts, xfce_line_conflicts,
};
use clipboard_history::conflicts::{
    binding_has_super_v, classify_desktop, detect_shortcut_conflicts, next_resolution, resolution_failure, resolved_note,
    DesktopKind, ShortcutConflict,
};

fn conflict(cmd: Option<&str>) -> ShortcutConflict {
    ShortcutConflict {
        binding: "<Super>v".to_string(),
        current_action: "Open Notification Center".to_string(),
        owner: "GNOME Shell".to_string(),
        resolution_command: cmd.map(|c| c.to_string()),
        resolution_steps: "change it".to_string(),
    }
}

#[test]
fn test_detect_conflicts_runs() {
    let _result = detect_shortcut_conflicts(String::new(), Vec::new());
}

#[test]
fn no_conflicts_message() {
    let r = detect_shortcut_conflicts("GNOME".to_string(), Vec::new());
    assert!(!r.can_auto_resolve);
    assert_eq!(r.message, "No shortcut conflicts detected.");
    assert_eq!(r.desktop_environment, "GNOME");
}

#[test]
fn conflicts_summary() {
    let r = detect_shortcut_conflicts("GNOME".to_string(), vec![conflict(Some("gsettings set x")), conflict(Some("y"))]);
    assert!(r.can_auto_resolve);
    assert_eq!(r.message, "2 shortcut conflict(s) detected that may prevent Super+V from working.");
    let r2 = detect_shortcut_conflicts("KDE Plasma".to_string(), vec![conflict(Some("a")), conflict(None)]);
    assert!(!r2.can_auto_resolve);
    assert_eq!(r2.conflicts.len(), 2);
}

#[test]
fn super_v_bindings() {
    assert!(binding_has_super_v("['<Super>v']"));
    assert!(binding_has_super_v("['<SUPER>V']"));
    assert!(!binding_has_super_v("['<Super>m']"));
    assert!(!binding_has_super_v("@as []"));
}

#[test]
fn desktop_classification() {
    assert_eq!(classify_desktop("pop:GNOME", ""), Some(DesktopKind::Pop));
    assert_eq!(classify_desktop("ubuntu:GNOME", "ubuntu"), Some(DesktopKind::Gnome));
    assert_eq!(classify_desktop("KDE", "plasmawayland"), Some(DesktopKind::Kde));
    assert_eq!(classify_desktop("", "hyprland"), Some(DesktopKind::Hyprland));
    assert_eq!(classify_desktop("LXQt", ""), None);
    assert_eq!(DesktopKind::Kde.name(), "KDE Plasma");
}

#[test]
fn tiling_config_lines() {
    assert!(tiling_line_conflicts("  bindsym $mod+v split toggle"));
    assert!(tiling_line_conflicts("BindSym Mod4+V exec foo"));
    assert!(!tiling_line_conflicts("# bindsym $mod+v split toggle"));
    assert!(!tiling_line_conflicts("bindsym $mod+v exec clipboard-history"));
    assert!(!tiling_line_conflicts("bindsym $mod+c kill"));
}

#[test]
fn hyprland_and_xfce_lines() {
    assert!(hyprland_line_conflicts("bind = SUPER, V, togglefloating,"));
    assert!(!hyprland_line_conflicts("  # bind = SUPER, V, togglefloating,"));
    assert!(!hyprland_line_conflicts("bind = SUPER, V, exec, win11-clipboard-history"));
    assert!(xfce_line_conflicts("/commands/custom/<Super>v  xfce4-popup-clipman"));
    assert!(!xfce_line_conflicts("/commands/custom/<Super>e  thunar"));
}

#[test]
fn kde_shortcut_file() {
    let lines: Vec<String> = [
        "[kwin]",
        "Window Maximize=Meta+Up,Meta+Up,Maximize Window",
        "Show Desktop=Meta+V,none,Peek at Desktop",
        "[win11-clipboard-history.desktop]",
        "_launch=Meta+V,none,Clipboard",
        "[plasmashell]",
        "clipboard_action=Meta+v,Meta+V,Automatic Action Popup",
        "Meta+V orphan line",
    ]
    .iter()
    .map(|s| s.to_string())
    .collect();
    let actions = kde_conflicting_actions(&lines);
    assert_eq!(
        actions,
        vec!["kwin: Show Desktop", "plasmashell: clipboard_action", "plasmashell"]
    );
    assert!(kde_conflicting_actions(&Vec::new()).is_empty());
}

#[test]
fn cosmic_and_klipper_files() {
    assert!(cosmic_custom_conflicts("(modifiers: [Super], key: \"v\"): Spawn(\"other\")"));
    assert!(!cosmic_custom_conflicts("(modifiers: [Super], key: \"v\"): Spawn(\"penguinclip\")"));
    assert!(cosmic_system_conflicts("(modifiers: [SUPER], key: \"V\"): System(x)"));
    assert!(!cosmic_system_conflicts("(modifiers: [Super], key: \"e\")"));
    assert!(klipper_conflicts("ShowHistory=Meta+V"));
    assert!(!klipper_conflicts("ShowHistory=Ctrl+Alt+H"));
}

#[test]
fn resolution_order_and_notes() {
    let cs = vec![conflict(None), conflict(Some("a")), conflict(None), conflict(Some("b"))];
    assert_eq!(next_resolution(&cs, 0), Some(1));
    assert_eq!(next_resolution(&cs, 2), Some(3));
    assert_eq!(next_resolution(&cs, 4), None);
    assert_eq!(resolved_note(&cs[1]), "Resolved: GNOME Shell (<Super>v)");
    assert_eq!(resolution_failure(&cs[1], "boom"), "Failed to resolve GNOME Shell: boom");
}
