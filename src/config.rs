//! Remembered window placement (used where the compositor lets the
//! application place its window) and the default placement.
use vstd::prelude::*;

verus! {

/// Where the window was last placed.
#[derive(Debug, Clone, Default)]
pub struct WindowState {
    pub monitor_name: Option<String>,
    pub x: i32,
    pub y: i32,
}

impl WindowState {
    /// A field-by-field copy.
    pub fn copy(&self) -> (r: Self)
        ensures
            r == *self,
    {
        WindowState {
            monitor_name: match &self.monitor_name {
                Some(n) => Some(n.clone()),
                None => None,
            },
            x: self.x,
            y: self.y,
        }
    }
}

/// The placement kept in memory, with a flag for changes not yet written.
pub struct ConfigManager {
    state: WindowState,
    dirty: bool,
}

impl ConfigManager {
    /// The placement currently held.
    pub closed spec fn state(&self) -> WindowState {
        self.state
    }

    /// Whether the held placement differs from what was last written.
    pub closed spec fn dirty(&self) -> bool {
        self.dirty
    }

    /// A manager holding a placement read from disk (or the default one).
    pub fn new(state: WindowState) -> (r: Self)
        ensures
            r.state() == state,
            !r.dirty(),
    {
        ConfigManager { state, dirty: false }
    }

    /// A copy of the placement.
    pub fn get_state(&self) -> (r: WindowState)
        ensures
            r == self.state(),
    {
        self.state.copy()
    }

    /// Updates the placement in memory only; it is written by the next sync.
    pub fn update_state(&mut self, monitor_name: Option<String>, x: i32, y: i32)
        ensures
            final(self).state() == (WindowState { monitor_name, x, y }),
            final(self).dirty(),
    {
        self.state.monitor_name = monitor_name;
        self.state.x = x;
        self.state.y = y;
        self.dirty = true;
    }

    /// Whether a sync has anything to write.
    pub fn needs_sync(&self) -> (r: bool)
        ensures
            r == self.dirty(),
    {
        self.dirty
    }

    /// Records the outcome of a write: a successful one clears the flag.
    pub fn sync_finished(&mut self, written: bool)
        ensures
            final(self).state() == old(self).state(),
            final(self).dirty() == (old(self).dirty() && !written),
    {
        if written {
            self.dirty = false;
        }
    }
}

/// Gap between the window and the bottom edge of the monitor.
pub const PADDING_BOTTOM: i64 = 45;

/// The default placement: centred horizontally, near the bottom edge.
pub open spec fn bottom_center_spec(
    monitor_x: i32,
    monitor_y: i32,
    monitor_width: u32,
    monitor_height: u32,
    window_width: u32,
    window_height: u32,
) -> (int, int) {
    (
        monitor_x + monitor_width as int / 2 - window_width as int / 2,
        monitor_y + monitor_height as int - window_height as int - PADDING_BOTTOM,
    )
}

/// The default placement of a window on a monitor.
pub fn bottom_center(
    monitor_x: i32,
    monitor_y: i32,
    monitor_width: u32,
    monitor_height: u32,
    window_width: u32,
    window_height: u32,
) -> (r: (i64, i64))
    ensures
        (r.0 as int, r.1 as int) == bottom_center_spec(
            monitor_x,
            monitor_y,
            monitor_width,
            monitor_height,
            window_width,
            window_height,
        ),
{
    let x = monitor_x as i64 + (monitor_width / 2) as i64 - (window_width / 2) as i64;
    let y = monitor_y as i64 + monitor_height as i64 - window_height as i64 - PADDING_BOTTOM;
    (x, y)
}

} // verus!
