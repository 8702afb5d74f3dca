//! Clipboard history: a bounded, deduplicated history of clipboard entries
//! with pinning, favorites and self-paste suppression, together with the
//! decision logic of the clipboard watcher, the focus tracker and the
//! paste-keystroke injector, and the desktop-integration checks around them.

// Text, hashing and encoding helpers.
pub mod fingerprint;
pub mod format;
pub mod media;
pub mod runtime;
pub mod text;

// The history store and its laws.
pub mod history;
pub mod laws;

// Watching, focusing and pasting.
pub mod focus;
pub mod injector;
pub mod watcher;

// Desktop integration.
pub mod config;
pub mod conflicts;
pub mod emoji;
pub mod hotkeys;
pub mod permissions;
pub mod rendering;
pub mod settings;
pub mod shortcuts;
pub mod theme;
