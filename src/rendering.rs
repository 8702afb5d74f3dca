//! Whether window transparency must be disabled, and why.
use vstd::prelude::*;

verus! {

/// The rendering environment detected at startup.
#[derive(Debug, Clone)]
pub struct RenderingEnv {
    pub is_nvidia: bool,
    pub is_appimage: bool,
    /// True when either flag is set.
    pub transparency_disabled: bool,
    /// Why transparency is disabled; empty when it is supported.
    pub reason: String,
}

pub open spec fn reason_text(is_nvidia: bool, is_appimage: bool) -> Seq<char> {
    if is_nvidia && is_appimage {
        "Transparency is not supported on NVIDIA GPUs running via AppImage."@
    } else if is_nvidia {
        "Transparency is not supported on NVIDIA GPUs due to rendering issues."@
    } else if is_appimage {
        "Transparency is not supported when running as an AppImage."@
    } else {
        Seq::empty()
    }
}

impl RenderingEnv {
    /// The environment for the detected GPU and packaging.
    pub fn from_detection(is_nvidia: bool, is_appimage: bool) -> (r: Self)
        ensures
            r.is_nvidia == is_nvidia,
            r.is_appimage == is_appimage,
            r.transparency_disabled == (is_nvidia || is_appimage),
            r.reason@ == reason_text(is_nvidia, is_appimage),
    {
        let reason = if is_nvidia && is_appimage {
            String::from_str("Transparency is not supported on NVIDIA GPUs running via AppImage.")
        } else if is_nvidia {
            String::from_str("Transparency is not supported on NVIDIA GPUs due to rendering issues.")
        } else if is_appimage {
            String::from_str("Transparency is not supported when running as an AppImage.")
        } else {
            String::new()
        };
        RenderingEnv { is_nvidia, is_appimage, transparency_disabled: is_nvidia || is_appimage, reason }
    }
}

} // verus!
