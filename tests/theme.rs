use clipboard_history::theme::{parse_cosmic_is_dark, scheme_from_is_dark, ColorScheme, ThemeInfo, ThemeState, TrayIcon};

#[test]
fn test_color_scheme_from_portal_value() {
    assert_eq!(ColorScheme::from_portal_value(0), ColorScheme::NoPreference);
    assert_eq!(ColorScheme::from_portal_value(1), ColorScheme::Dark);
    assert_eq!(ColorScheme::from_portal_value(2), ColorScheme::Light);
    assert_eq!(ColorScheme::from_portal_value(99), ColorScheme::NoPreference);
}

#[test]
fn test_is_dark() {
    assert!(ColorScheme::Dark.is_dark());
    assert!(!ColorScheme::Light.is_dark());
    assert!(!ColorScheme::NoPreference.is_dark());
}

#[test]
fn theme_info_follows_scheme() {
    let info = ThemeInfo::new(ColorScheme::Dark, "xdg-portal");
    assert!(info.prefers_dark);
    assert_eq!(info.source, "xdg-portal");
    assert_eq!(ColorScheme::NoPreference.name(), "nopreference");
    assert_eq!(scheme_from_is_dark(false), ColorScheme::Light);
}

#[test]
fn portal_changes_announced_only_when_cache_changes() {
    let mut st = ThemeState::new();
    assert_eq!(st.on_portal_change(1), Some(ColorScheme::Dark));
    assert_eq!(st.on_portal_change(1), None);
    assert_eq!(st.on_portal_change(0), Some(ColorScheme::NoPreference));
    assert_eq!(st.cached, None);
    assert_eq!(st.on_portal_change(5), None);
}

#[test]
fn listener_and_tray_flags() {
    let mut st = ThemeState::new();
    assert!(!st.is_event_listener_running());
    assert!(st.start_listener());
    assert!(!st.start_listener());
    assert!(st.is_event_listener_running());
    st.stop_listener();
    assert!(!st.is_event_listener_running());
    assert_eq!(st.tray_icon(), TrayIcon::Default);
    st.update_dynamic_tray_flag(true);
    assert_eq!(st.tray_icon(), TrayIcon::Light);
}

#[test]
fn cosmic_file_values() {
    assert_eq!(parse_cosmic_is_dark(" true\n"), Some(true));
    assert_eq!(parse_cosmic_is_dark("false"), Some(false));
    assert_eq!(parse_cosmic_is_dark("yes"), None);
    assert_eq!(parse_cosmic_is_dark(""), None);
}

#[test]
fn query_fallbacks() {
    let mut st = ThemeState::new();
    assert!(st.cached_info().is_none());
    let fallback = st.after_query(None, None);
    assert_eq!(fallback.color_scheme, ColorScheme::NoPreference);
    assert_eq!(fallback.source, "default");
    let cosmic = st.after_query(None, Some(true));
    assert_eq!((cosmic.color_scheme, cosmic.source.as_str()), (ColorScheme::Dark, "cosmic-config"));
    assert!(st.cached_info().is_none());
    let portal = st.after_query(Some(2), Some(true));
    assert_eq!((portal.color_scheme, portal.source.as_str()), (ColorScheme::Light, "xdg-portal"));
    let cached = st.cached_info().unwrap();
    assert_eq!((cached.color_scheme, cached.source.as_str()), (ColorScheme::Light, "cache"));
    assert!(!cached.prefers_dark);
}
