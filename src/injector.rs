//! The paste chord and the ordered cascade of injection strategies.
use vstd::prelude::*;

verus! {

/// A key of the paste chord.
#[derive(Debug, Clone, Copy, PartialEq, Eq, Structural)]
pub enum ChordKey {
    Control,
    Shift,
    V,
}

/// A press or release of one key.
#[derive(Debug, Clone, Copy, PartialEq, Eq, Structural)]
pub struct KeyEvent {
    pub key: ChordKey,
    pub press: bool,
}

/// The events of the paste chord, in order: modifiers down, V down and up,
/// modifiers up in reverse order. Terminals take the extra Shift.
pub open spec fn chord_events(use_shift: bool) -> Seq<KeyEvent> {
    if use_shift {
        seq![
            KeyEvent { key: ChordKey::Control, press: true },
            KeyEvent { key: ChordKey::Shift, press: true },
            KeyEvent { key: ChordKey::V, press: true },
            KeyEvent { key: ChordKey::V, press: false },
            KeyEvent { key: ChordKey::Shift, press: false },
            KeyEvent { key: ChordKey::Control, press: false },
        ]
    } else {
        seq![
            KeyEvent { key: ChordKey::Control, press: true },
            KeyEvent { key: ChordKey::V, press: true },
            KeyEvent { key: ChordKey::V, press: false },
            KeyEvent { key: ChordKey::Control, press: false },
        ]
    }
}

/// The paste chord as a sequence of key events.
pub fn paste_chord(use_shift: bool) -> (r: Vec<KeyEvent>)
    ensures
        r@ == chord_events(use_shift),
{
    let mut r: Vec<KeyEvent> = Vec::new();
    r.push(KeyEvent { key: ChordKey::Control, press: true });
    if use_shift {
        r.push(KeyEvent { key: ChordKey::Shift, press: true });
    }
    r.push(KeyEvent { key: ChordKey::V, press: true });
    r.push(KeyEvent { key: ChordKey::V, press: false });
    if use_shift {
        r.push(KeyEvent { key: ChordKey::Shift, press: false });
    }
    r.push(KeyEvent { key: ChordKey::Control, press: false });
    assert(r@ =~= chord_events(use_shift));
    r
}

/// Whether the chord needs Shift: only where the focused window can be
/// inspected (X11) and is a terminal.
pub fn needs_shift(is_x11: bool, focused_is_terminal: bool) -> (r: bool)
    ensures
        r == (is_x11 && focused_is_terminal),
{
    is_x11 && focused_is_terminal
}

/// The X11 keycode of a chord key (left Control, left Shift, V).
pub fn xtest_keycode(key: ChordKey) -> (r: u8)
    ensures
        r == match key {
            ChordKey::Control => 37u8,
            ChordKey::Shift => 50u8,
            ChordKey::V => 55u8,
        },
{
    match key {
        ChordKey::Control => 37,
        ChordKey::Shift => 50,
        ChordKey::V => 55,
    }
}

/// The XTest event type of a press (2) or release (3).
pub fn xtest_event_type(press: bool) -> (r: u8)
    ensures
        r == if press { 2u8 } else { 3u8 },
{
    if press { 2 } else { 3 }
}

/// The Linux input key code of a chord key (KEY_LEFTCTRL, KEY_LEFTSHIFT, KEY_V).
pub fn uinput_keycode(key: ChordKey) -> (r: u16)
    ensures
        r == match key {
            ChordKey::Control => 29u16,
            ChordKey::Shift => 42u16,
            ChordKey::V => 47u16,
        },
{
    match key {
        ChordKey::Control => 29,
        ChordKey::Shift => 42,
        ChordKey::V => 47,
    }
}

/// The uinput value of a press (1) or release (0).
pub fn uinput_value(press: bool) -> (r: i32)
    ensures
        r == if press { 1i32 } else { 0i32 },
{
    if press { 1 } else { 0 }
}

/// The key combination in xdotool's syntax.
pub fn xdotool_combo(use_shift: bool) -> (r: &'static str)
    ensures
        r@ == (if use_shift { "ctrl+shift+v"@ } else { "ctrl+v"@ }),
{
    if use_shift { "ctrl+shift+v" } else { "ctrl+v" }
}

/// A mechanism that synthesizes the chord.
#[derive(Debug, Clone, Copy, PartialEq, Eq, Structural)]
pub enum Strategy {
    /// The xdotool command-line tool.
    Xdotool,
    /// The X11 XTest extension.
    XTest,
    /// A temporary virtual keyboard through /dev/uinput.
    Uinput,
}

/// The strategies to try, most portable first; only uinput works outside X11.
pub open spec fn strategy_order(is_x11: bool) -> Seq<Strategy> {
    if is_x11 {
        seq![Strategy::Xdotool, Strategy::XTest, Strategy::Uinput]
    } else {
        seq![Strategy::Uinput]
    }
}

/// The cascade of strategies for one paste: each is tried in order until
/// one succeeds.
pub struct PasteCascade {
    order: Vec<Strategy>,
    tried: usize,
}

impl PasteCascade {
    /// The order of strategies.
    pub closed spec fn order(&self) -> Seq<Strategy> {
        self.order@
    }

    /// How many strategies were handed out.
    pub closed spec fn tried(&self) -> nat {
        self.tried as nat
    }

    /// A cascade for the given display server, nothing tried yet.
    pub fn new(is_x11: bool) -> (r: Self)
        ensures
            r.order() == strategy_order(is_x11),
            r.tried() == 0,
    {
        let mut order: Vec<Strategy> = Vec::new();
        if is_x11 {
            order.push(Strategy::Xdotool);
            order.push(Strategy::XTest);
        }
        order.push(Strategy::Uinput);
        assert(order@ =~= strategy_order(is_x11));
        PasteCascade { order, tried: 0 }
    }

    /// The next step of the cascade, given the outcome of the strategy
    /// last handed out (`None` before the first): stop on a success, else
    /// hand out the next strategy, or report that every one failed.
    pub fn step(&mut self, last_succeeded: Option<bool>) -> (r: CascadeStep)
        ensures
            final(self).order() == old(self).order(),
            last_succeeded == Some(true) ==> r == CascadeStep::Succeeded && final(self).tried() == old(self).tried(),
            last_succeeded != Some(true) && old(self).tried() < old(self).order().len() ==> r == CascadeStep::Try(
                old(self).order()[old(self).tried() as int],
            ) && final(self).tried() == old(self).tried() + 1,
            last_succeeded != Some(true) && old(self).tried() >= old(self).order().len() ==> r == CascadeStep::AllFailed
                && final(self).tried() == old(self).tried(),
    {
        match last_succeeded {
            Some(true) => CascadeStep::Succeeded,
            _ => if self.tried < self.order.len() {
                let s = self.order[self.tried];
                self.tried = self.tried + 1;
                CascadeStep::Try(s)
            } else {
                CascadeStep::AllFailed
            },
        }
    }
}

/// What the paste cascade does next.
#[derive(Debug, Clone, Copy, PartialEq, Eq, Structural)]
pub enum CascadeStep {
    /// Run this strategy and report its outcome.
    Try(Strategy),
    /// The last strategy succeeded: stop.
    Succeeded,
    /// Every strategy failed.
    AllFailed,
}

/// The error reported when every strategy failed.
pub fn all_failed_message() -> (r: &'static str)
    ensures
        r@ == "All paste methods failed"@,
{
    "All paste methods failed"
}

} // verus!
