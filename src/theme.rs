//! System color scheme, as the desktop portal reports it.
use vstd::prelude::*;
use crate::text::{chars_of, trim_chars, trimmed};

verus! {

/// The portal's color-scheme preference.
#[derive(Debug, Clone, Copy, PartialEq, Eq, Structural)]
pub enum ColorScheme {
    /// No preference (portal value 0, and any unknown value).
    NoPreference,
    /// Dark appearance (portal value 1).
    Dark,
    /// Light appearance (portal value 2).
    Light,
}

pub open spec fn scheme_of(value: u32) -> ColorScheme {
    if value == 1 {
        ColorScheme::Dark
    } else if value == 2 {
        ColorScheme::Light
    } else {
        ColorScheme::NoPreference
    }
}

impl ColorScheme {
    /// The scheme a portal value stands for.
    pub fn from_portal_value(value: u32) -> (r: Self)
        ensures
            r == scheme_of(value),
    {
        match value {
            1 => ColorScheme::Dark,
            2 => ColorScheme::Light,
            _ => ColorScheme::NoPreference,
        }
    }

    /// Whether this scheme is the dark one.
    pub fn is_dark(&self) -> (r: bool)
        ensures
            r == (*self == ColorScheme::Dark),
    {
        match self {
            ColorScheme::Dark => true,
            _ => false,
        }
    }

    /// The lowercase name the frontend uses.
    pub fn name(&self) -> (r: &'static str)
        ensures
            r@ == match *self {
                ColorScheme::NoPreference => "nopreference"@,
                ColorScheme::Dark => "dark"@,
                ColorScheme::Light => "light"@,
            },
    {
        match self {
            ColorScheme::NoPreference => "nopreference",
            ColorScheme::Dark => "dark",
            ColorScheme::Light => "light",
        }
    }
}

/// A detected scheme and where it came from.
#[derive(Debug, Clone)]
pub struct ThemeInfo {
    pub color_scheme: ColorScheme,
    pub prefers_dark: bool,
    pub source: String,
}

impl ThemeInfo {
    /// Theme information for a scheme; `prefers_dark` follows the scheme.
    pub fn new(color_scheme: ColorScheme, source: &str) -> (r: Self)
        ensures
            r.color_scheme == color_scheme,
            r.prefers_dark == (color_scheme == ColorScheme::Dark),
            r.source@ == source@,
    {
        ThemeInfo { color_scheme, prefers_dark: color_scheme.is_dark(), source: String::from_str(source) }
    }
}

/// The scheme that the COSMIC `is_dark` setting gives.
pub fn scheme_from_is_dark(is_dark: bool) -> (r: ColorScheme)
    ensures
        r == if is_dark { ColorScheme::Dark } else { ColorScheme::Light },
{
    if is_dark { ColorScheme::Dark } else { ColorScheme::Light }
}

/// The cached scheme of the change listener: no preference is kept as no
/// cached value, so the frontend falls back to its own media queries.
pub open spec fn cache_value(s: ColorScheme) -> Option<ColorScheme> {
    if s == ColorScheme::NoPreference { None } else { Some(s) }
}

/// The tray icon to show.
#[derive(Debug, Clone, Copy, PartialEq, Eq, Structural)]
pub enum TrayIcon {
    /// The regular icon.
    Default,
    /// The theme-aware icon.
    Light,
}

/// Process-wide theme state: the cached scheme, whether the tray icon
/// follows the theme, and whether the change listener runs.
pub struct ThemeState {
    pub cached: Option<ColorScheme>,
    pub dynamic_icon: bool,
    pub listener_running: bool,
}

impl ThemeState {
    pub fn new() -> (r: Self)
        ensures
            r.cached is None,
            !r.dynamic_icon,
            !r.listener_running,
    {
        ThemeState { cached: None, dynamic_icon: false, listener_running: false }
    }

    /// Handles a color-scheme change signal carrying a portal value:
    /// updates the cache and returns the scheme to announce, or `None` when
    /// the cached value did not change.
    pub fn on_portal_change(&mut self, value: u32) -> (r: Option<ColorScheme>)
        ensures
            final(self).dynamic_icon == old(self).dynamic_icon,
            final(self).listener_running == old(self).listener_running,
            final(self).cached == cache_value(scheme_of(value)),
            r == if old(self).cached == cache_value(scheme_of(value)) { None } else { Some(scheme_of(value)) },
    {
        let scheme = ColorScheme::from_portal_value(value);
        let next = match scheme {
            ColorScheme::NoPreference => None,
            _ => Some(scheme),
        };
        let same = match (self.cached, next) {
            (None, None) => true,
            (Some(a), Some(b)) => a == b,
            _ => false,
        };
        self.cached = next;
        if same { None } else { Some(scheme) }
    }

    /// Records whether the tray icon follows the theme.
    pub fn update_dynamic_tray_flag(&mut self, enabled: bool)
        ensures
            final(self).dynamic_icon == enabled,
            final(self).cached == old(self).cached,
            final(self).listener_running == old(self).listener_running,
    {
        self.dynamic_icon = enabled;
    }

    /// Whether the change listener runs.
    pub fn is_event_listener_running(&self) -> (r: bool)
        ensures
            r == self.listener_running,
    {
        self.listener_running
    }

    /// Marks the listener as started; false when it was already running
    /// (only one listener may run).
    pub fn start_listener(&mut self) -> (r: bool)
        ensures
            r == !old(self).listener_running,
            final(self).listener_running,
            final(self).cached == old(self).cached,
            final(self).dynamic_icon == old(self).dynamic_icon,
    {
        let was = self.listener_running;
        self.listener_running = true;
        !was
    }

    /// Marks the listener as ended.
    pub fn stop_listener(&mut self)
        ensures
            !final(self).listener_running,
            final(self).cached == old(self).cached,
            final(self).dynamic_icon == old(self).dynamic_icon,
    {
        self.listener_running = false;
    }

    /// The tray icon for the current setting.
    pub fn tray_icon(&self) -> (r: TrayIcon)
        ensures
            r == if self.dynamic_icon { TrayIcon::Light } else { TrayIcon::Default },
    {
        if self.dynamic_icon { TrayIcon::Light } else { TrayIcon::Default }
    }
}

/// The value of COSMIC's `is_dark` file: "true" or "false" once trimmed.
pub open spec fn cosmic_is_dark(content: Seq<char>) -> Option<bool> {
    if trimmed(content) == "true"@ {
        Some(true)
    } else if trimmed(content) == "false"@ {
        Some(false)
    } else {
        None
    }
}

fn chars_equal(a: &Vec<char>, b: &Vec<char>) -> (r: bool)
    ensures
        r == (a@ == b@),
{
    if a.len() != b.len() {
        return false;
    }
    let mut i: usize = 0;
    while i < a.len()
        invariant
            0 <= i <= a@.len(),
            a@.len() == b@.len(),
            forall|k: int| 0 <= k < i ==> a@[k] == b@[k],
        decreases a@.len() - i,
    {
        if a[i] != b[i] {
            return false;
        }
        i = i + 1;
    }
    assert(a@ =~= b@);
    true
}

/// Reads COSMIC's `is_dark` file content.
pub fn parse_cosmic_is_dark(content: &str) -> (r: Option<bool>)
    ensures
        r == cosmic_is_dark(content@),
{
    let t = trim_chars(&chars_of(content));
    if chars_equal(&t, &chars_of("true")) {
        Some(true)
    } else if chars_equal(&t, &chars_of("false")) {
        Some(false)
    } else {
        None
    }
}

/// The scheme reported after querying the system: the portal's value when
/// it answered, else COSMIC's setting when it could be read, else no
/// preference; with the name of the source.
pub open spec fn detected_scheme(portal: Option<u32>, cosmic: Option<bool>) -> (ColorScheme, Seq<char>) {
    match portal {
        Some(v) => (scheme_of(v), "xdg-portal"@),
        None => match cosmic {
            Some(d) => (if d { ColorScheme::Dark } else { ColorScheme::Light }, "cosmic-config"@),
            None => (ColorScheme::NoPreference, "default"@),
        },
    }
}

impl ThemeState {
    /// The cached scheme, if any, as theme information from the cache.
    pub fn cached_info(&self) -> (r: Option<ThemeInfo>)
        ensures
            match self.cached {
                Some(s) => r matches Some(i) && i.color_scheme == s && i.prefers_dark == (s == ColorScheme::Dark)
                    && i.source@ == "cache"@,
                None => r is None,
            },
    {
        match self.cached {
            Some(s) => Some(ThemeInfo::new(s, "cache")),
            None => None,
        }
    }

    /// Theme information after querying the portal (its value, if it
    /// answered) and COSMIC's file (its value, if readable); a portal answer
    /// is cached.
    pub fn after_query(&mut self, portal: Option<u32>, cosmic: Option<bool>) -> (r: ThemeInfo)
        ensures
            (r.color_scheme, r.source@) == detected_scheme(portal, cosmic),
            r.prefers_dark == (r.color_scheme == ColorScheme::Dark),
            final(self).cached == match portal {
                Some(v) => Some(scheme_of(v)),
                None => old(self).cached,
            },
            final(self).dynamic_icon == old(self).dynamic_icon,
            final(self).listener_running == old(self).listener_running,
    {
        match portal {
            Some(v) => {
                let s = ColorScheme::from_portal_value(v);
                self.cached = Some(s);
                ThemeInfo::new(s, "xdg-portal")
            },
            None => match cosmic {
                Some(d) => ThemeInfo::new(scheme_from_is_dark(d), "cosmic-config"),
                None => ThemeInfo::new(ColorScheme::NoPreference, "default"),
            },
        }
    }
}

} // verus!
