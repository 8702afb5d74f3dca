//! Global hotkey recognition: Super+V (or Ctrl+Alt+V) toggles the window,
//! Escape closes it.
use vstd::prelude::*;

verus! {

/// What a hotkey asks for.
#[derive(Debug, Clone, Copy, PartialEq, Eq, Structural)]
pub enum HotkeyAction {
    Toggle,
    Close,
}

/// The keys the recogniser distinguishes.
#[derive(Debug, Clone, Copy, PartialEq, Eq, Structural)]
pub enum HotKey {
    /// Either Super (Meta) key.
    Super,
    /// Either Control key.
    Control,
    /// Alt or AltGr.
    Alt,
    Escape,
    V,
    Other,
}

/// Which modifiers are held.
#[derive(Debug, Clone, Copy, PartialEq, Eq, Structural)]
pub struct HotkeyState {
    pub super_down: bool,
    pub ctrl_down: bool,
    pub alt_down: bool,
}

impl HotkeyState {
    /// No modifier held.
    pub fn new() -> (r: Self)
        ensures
            !r.super_down && !r.ctrl_down && !r.alt_down,
    {
        HotkeyState { super_down: false, ctrl_down: false, alt_down: false }
    }

    /// Handles a key press or release; returns the action it triggers.
    pub fn on_key(&mut self, key: HotKey, pressed: bool) -> (r: Option<HotkeyAction>)
        ensures
            final(self).super_down == if key == HotKey::Super { pressed } else { old(self).super_down },
            final(self).ctrl_down == if key == HotKey::Control { pressed } else { old(self).ctrl_down },
            final(self).alt_down == if key == HotKey::Alt { pressed } else { old(self).alt_down },
            r == if pressed && key == HotKey::Escape {
                Some(HotkeyAction::Close)
            } else if pressed && key == HotKey::V && (old(self).super_down || (old(self).ctrl_down
                && old(self).alt_down)) {
                Some(HotkeyAction::Toggle)
            } else {
                None::<HotkeyAction>
            },
    {
        match key {
            HotKey::Super => {
                self.super_down = pressed;
                None
            },
            HotKey::Control => {
                self.ctrl_down = pressed;
                None
            },
            HotKey::Alt => {
                self.alt_down = pressed;
                None
            },
            HotKey::Escape => if pressed {
                Some(HotkeyAction::Close)
            } else {
                None
            },
            HotKey::V => if pressed && (self.super_down || (self.ctrl_down && self.alt_down)) {
                Some(HotkeyAction::Toggle)
            } else {
                None
            },
            HotKey::Other => None,
        }
    }
}

} // verus!
