//! Focus tracking: which window to give focus back to before pasting,
//! finding a window by title, and recognising terminal emulators.
use vstd::prelude::*;
use crate::text::{chars_of, contains, find_in, lower_of, lowercase, str_contains};

verus! {

/// Why focus cannot be restored.
#[derive(Debug, Clone, Copy, PartialEq, Eq, Structural)]
pub enum FocusError {
    /// No window was saved (or the saved one is the null window).
    NoWindowSaved,
}

impl FocusError {
    /// A description for logs and error strings.
    pub fn message(&self) -> (r: &'static str)
        ensures
            r@ == "No previous window saved"@,
    {
        match self {
            FocusError::NoWindowSaved => "No previous window saved",
        }
    }
}

/// The window that had input focus before the history window opened.
pub struct FocusTracker {
    /// The saved window id; overwritten by every save.
    pub last_focused: Option<u32>,
}

impl FocusTracker {
    /// A tracker with nothing saved.
    pub fn new() -> (r: Self)
        ensures
            r.last_focused is None,
    {
        FocusTracker { last_focused: None }
    }

    /// Saves the focused window, replacing any earlier one.
    pub fn save_focused_window(&mut self, window: u32)
        ensures
            final(self).last_focused == Some(window),
    {
        self.last_focused = Some(window);
    }

    /// The window to give focus back to: the saved one, unless none was
    /// saved or it is the null window 0.
    pub fn restore_target(&self) -> (r: Result<u32, FocusError>)
        ensures
            match self.last_focused {
                Some(w) => if w == 0 {
                    r == Err::<u32, FocusError>(FocusError::NoWindowSaved)
                } else {
                    r == Ok::<u32, FocusError>(w)
                },
                None => r == Err::<u32, FocusError>(FocusError::NoWindowSaved),
            },
    {
        match self.last_focused {
            Some(w) => if w == 0 {
                Err(FocusError::NoWindowSaved)
            } else {
                Ok(w)
            },
            None => Err(FocusError::NoWindowSaved),
        }
    }
}

/// The first window whose title contains `title`.
pub open spec fn first_titled(windows: Seq<(u32, Seq<char>)>, title: Seq<char>, i: int) -> bool {
    0 <= i < windows.len() && contains(windows[i].1, title) && forall|k: int|
        0 <= k < i ==> !contains(#[trigger] windows[k].1, title)
}

/// Picks, among windows listed with their titles, the first whose title
/// contains `title`.
pub fn find_window_by_title(windows: &Vec<(u32, String)>, title: &str) -> (r: Option<u32>)
    ensures
        match r {
            Some(id) => exists|i: int|
                first_titled(windows@.map_values(|w: (u32, String)| (w.0, w.1@)), title@, i)
                && windows@[i].0 == id,
            None => forall|k: int| 0 <= k < windows@.len() ==> !contains(#[trigger] windows@[k].1@, title@),
        },
{
    let ghost named = windows@.map_values(|w: (u32, String)| (w.0, w.1@));
    let mut i: usize = 0;
    while i < windows.len()
        invariant
            0 <= i <= windows@.len(),
            named == windows@.map_values(|w: (u32, String)| (w.0, w.1@)),
            forall|k: int| 0 <= k < i ==> !contains(#[trigger] windows@[k].1@, title@),
        decreases windows@.len() - i,
    {
        if str_contains(windows[i].1.as_str(), title) {
            assert forall|k: int| 0 <= k < i implies !contains(#[trigger] named[k].1, title@) by {
                assert(named[k].1 == windows@[k].1@);
            }
            assert(first_titled(named, title@, i as int));
            return Some(windows[i].0);
        }
        i = i + 1;
    }
    None
}

/// What the window search does after one look at the window list.
#[derive(Debug, Clone, Copy, PartialEq, Eq, Structural)]
pub enum WaitStep {
    /// The window appeared.
    Found(u32),
    /// Not yet there: look again after the poll interval.
    Poll,
    /// Not there and the time is up.
    TimedOut,
}

/// Decides the next step of waiting for a window: done when it was found,
/// poll again while `elapsed_ms` is below `timeout_ms`.
pub fn next_wait_step(found: Option<u32>, elapsed_ms: u64, timeout_ms: u64) -> (r: WaitStep)
    ensures
        r == match found {
            Some(id) => WaitStep::Found(id),
            None => if elapsed_ms < timeout_ms { WaitStep::Poll } else { WaitStep::TimedOut },
        },
{
    match found {
        Some(id) => WaitStep::Found(id),
        None => if elapsed_ms < timeout_ms {
            WaitStep::Poll
        } else {
            WaitStep::TimedOut
        },
    }
}

/// What the search for the focused window's class does next.
#[derive(Debug, Clone, Copy, PartialEq, Eq, Structural)]
pub enum ClassStep {
    /// The window has a class hint: match it.
    UseClass,
    /// No class hint: look at this parent window.
    Ascend(u32),
    /// No class hint found: not a terminal.
    GiveUp,
}

/// How many windows up the search for a class hint goes.
pub const MAX_CLASS_DEPTH: u32 = 10;

/// Decides the next step of the search for a class hint, having looked at
/// `depth + 1` windows: use the hint of the current window when it has one;
/// else go up to its parent unless the parent is none (0) or the root, or
/// the search has gone `MAX_CLASS_DEPTH` windows up.
pub fn next_class_step(depth: u32, has_class: bool, parent: u32, root: u32) -> (r: ClassStep)
    ensures
        r == if has_class {
            ClassStep::UseClass
        } else if parent == 0 || parent == root || depth + 1 >= MAX_CLASS_DEPTH {
            ClassStep::GiveUp
        } else {
            ClassStep::Ascend(parent)
        },
{
    if has_class {
        ClassStep::UseClass
    } else if parent == 0 || parent == root || depth >= MAX_CLASS_DEPTH - 1 {
        ClassStep::GiveUp
    } else {
        ClassStep::Ascend(parent)
    }
}

/// Window classes of known terminal emulators, lowercase.
pub open spec fn terminal_classes() -> Seq<&'static str> {
    seq![
        "gnome-terminal", "konsole", "xterm", "xfce4-terminal", "alacritty", "kitty",
        "terminator", "tilix", "urxvt", "rxvt", "lxterminal", "mate-terminal", "st", "foot",
        "wezterm", "sakura", "terminology", "guake", "tilda", "yakuake", "cool-retro-term",
        "eterm", "hyper", "tabby", "terminal", "deepin-terminal", "qterminal", "termite",
        "roxterm", "kgx", "org.gnome.console", "org.gnome.terminal", "blackbox", "ptyxis",
    ]
}

fn terminal_class_list() -> (r: Vec<&'static str>)
    ensures
        r@ == terminal_classes(),
{
    let r = vec![
        "gnome-terminal", "konsole", "xterm", "xfce4-terminal", "alacritty", "kitty",
        "terminator", "tilix", "urxvt", "rxvt", "lxterminal", "mate-terminal", "st", "foot",
        "wezterm", "sakura", "terminology", "guake", "tilda", "yakuake", "cool-retro-term",
        "eterm", "hyper", "tabby", "terminal", "deepin-terminal", "qterminal", "termite",
        "roxterm", "kgx", "org.gnome.console", "org.gnome.terminal", "blackbox", "ptyxis",
    ];
    assert(r@ =~= terminal_classes());
    r
}

/// Whether a window class names a terminal emulator: its lowercase form
/// contains one of the known terminal classes.
pub open spec fn is_terminal_class(wm_class: Seq<char>) -> bool {
    exists|k: int| 0 <= k < terminal_classes().len() && contains(lower_of(wm_class), (#[trigger] terminal_classes()[k])@)
}

/// Whether the focused window, given its class hint (WM_CLASS, as found on
/// the window or its nearest ancestor that has one), is a terminal
/// emulator, which pastes with Ctrl+Shift+V.
pub fn is_focused_window_terminal(wm_class: &str) -> (r: bool)
    ensures
        r == is_terminal_class(wm_class@),
{
    let lower = lowercase(wm_class);
    let hay = chars_of(lower.as_str());
    let classes = terminal_class_list();
    let mut k: usize = 0;
    while k < classes.len()
        invariant
            0 <= k <= classes@.len(),
            classes@ == terminal_classes(),
            hay@ == lower_of(wm_class@),
            forall|j: int| 0 <= j < k ==> !contains(lower_of(wm_class@), (#[trigger] terminal_classes()[j])@),
        decreases classes@.len() - k,
    {
        let needle = chars_of(classes[k]);
        if find_in(&hay, &needle).is_some() {
            return true;
        }
        k = k + 1;
    }
    false
}

} // verus!
