//! Whether keystroke injection through /dev/uinput can work, with advice.
use vstd::prelude::*;

verus! {

/// Access to the uinput device and what to do about it.
#[derive(Debug, Clone)]
pub struct PermissionStatus {
    pub uinput_accessible: bool,
    pub uinput_path: String,
    pub user_in_input_group: bool,
    pub suggestion: String,
}

pub open spec fn suggestion_text(uinput_accessible: bool, user_in_input_group: bool) -> Seq<char> {
    if uinput_accessible {
        "Permissions OK! Paste simulation will work."@
    } else if user_in_input_group {
        "You're in the 'input' group but /dev/uinput is not accessible. Try logging out and back in."@
    } else {
        "Missing permissions. Click 'Fix Permissions' or run: sudo usermod -aG input $USER && logout"@
    }
}

impl PermissionStatus {
    /// The status for the probed facts, with the matching suggestion.
    pub fn from_probe(uinput_accessible: bool, user_in_input_group: bool) -> (r: Self)
        ensures
            r.uinput_accessible == uinput_accessible,
            r.user_in_input_group == user_in_input_group,
            r.uinput_path@ == "/dev/uinput"@,
            r.suggestion@ == suggestion_text(uinput_accessible, user_in_input_group),
    {
        let suggestion = if uinput_accessible {
            String::from_str("Permissions OK! Paste simulation will work.")
        } else if user_in_input_group {
            String::from_str(
                "You're in the 'input' group but /dev/uinput is not accessible. Try logging out and back in.",
            )
        } else {
            String::from_str(
                "Missing permissions. Click 'Fix Permissions' or run: sudo usermod -aG input $USER && logout",
            )
        };
        PermissionStatus {
            uinput_accessible,
            uinput_path: String::from_str("/dev/uinput"),
            user_in_input_group,
            suggestion,
        }
    }
}

} // verus!
