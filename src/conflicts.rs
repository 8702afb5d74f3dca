//! Shortcut conflicts: which desktop is running, which of its bindings
//! clash with Super+V, and the summary shown to the user.
use vstd::prelude::*;
use crate::format::{decimal_of, push_decimal};
use crate::text::{chars_of, contains, find_in, lower_of, lowercase, matches_at, occurs_at, string_of, trim_chars, trimmed};

verus! {

/// A binding of the desktop that clashes with ours.
#[derive(Debug, Clone)]
pub struct ShortcutConflict {
    /// The clashing binding, e.g. "Super+V".
    pub binding: String,
    /// What the binding does now.
    pub current_action: String,
    /// The desktop or application that owns it.
    pub owner: String,
    /// A command that resolves the clash, if one is known.
    pub resolution_command: Option<String>,
    /// How to resolve it by hand.
    pub resolution_steps: String,
}

/// The conflicts found on the running desktop.
#[derive(Debug, Clone)]
pub struct ConflictDetectionResult {
    pub desktop_environment: String,
    pub conflicts: Vec<ShortcutConflict>,
    /// True when there are conflicts and each has a resolution command.
    pub can_auto_resolve: bool,
    pub message: String,
}

/// The summary message for `n` conflicts.
pub open spec fn conflict_message(n: nat) -> Seq<char> {
    if n == 0 {
        "No shortcut conflicts detected."@
    } else {
        decimal_of(n) + " shortcut conflict(s) detected that may prevent Super+V from working."@
    }
}

/// Summarises the conflicts found on a desktop.
pub fn detect_shortcut_conflicts(desktop_environment: String, conflicts: Vec<ShortcutConflict>) -> (r: ConflictDetectionResult)
    ensures
        r.desktop_environment == desktop_environment,
        r.conflicts@ == conflicts@,
        r.can_auto_resolve == (conflicts@.len() > 0 && forall|k: int|
            0 <= k < conflicts@.len() ==> (#[trigger] conflicts@[k]).resolution_command is Some),
        r.message@ == conflict_message(conflicts@.len()),
{
    let mut all: bool = true;
    let mut i: usize = 0;
    while i < conflicts.len()
        invariant
            0 <= i <= conflicts@.len(),
            all == forall|k: int| 0 <= k < i ==> (#[trigger] conflicts@[k]).resolution_command is Some,
        decreases conflicts@.len() - i,
    {
        if conflicts[i].resolution_command.is_none() {
            all = false;
        }
        i = i + 1;
    }
    let n = conflicts.len();
    let message = if n == 0 {
        String::from_str("No shortcut conflicts detected.")
    } else {
        let mut s = String::new();
        push_decimal(&mut s, n as u64);
        s.append(" shortcut conflict(s) detected that may prevent Super+V from working.");
        assert(s@ =~= conflict_message(n as nat));
        s
    };
    ConflictDetectionResult {
        desktop_environment,
        conflicts,
        can_auto_resolve: n > 0 && all,
        message,
    }
}

/// Whether a GNOME-style binding value (e.g. "['<Super>v']") binds Super+V:
/// lowercase, it mentions both "super" and "v".
pub open spec fn binds_super_v(binding: Seq<char>) -> bool {
    contains(lower_of(binding), "super"@) && contains(lower_of(binding), "v"@)
}

pub fn binding_has_super_v(binding: &str) -> (r: bool)
    ensures
        r == binds_super_v(binding@),
{
    let lower = lowercase(binding);
    let hay = chars_of(lower.as_str());
    let super_key = chars_of("super");
    let v_key = chars_of("v");
    find_in(&hay, &super_key).is_some() && find_in(&hay, &v_key).is_some()
}

/// Desktop environments with conflict checks of their own.
#[derive(Debug, Clone, Copy, PartialEq, Eq, Structural)]
pub enum DesktopKind {
    Pop,
    Gnome,
    Cosmic,
    Kde,
    Cinnamon,
    Xfce,
    I3,
    Sway,
    Hyprland,
}

/// The desktop named by the session variables: their lowercase forms,
/// joined by a space, are searched for known names in a fixed order.
pub open spec fn desktop_of(combined: Seq<char>) -> Option<DesktopKind> {
    if contains(combined, "pop"@) {
        Some(DesktopKind::Pop)
    } else if contains(combined, "gnome"@) || contains(combined, "unity"@) || contains(combined, "pantheon"@) {
        Some(DesktopKind::Gnome)
    } else if contains(combined, "cosmic"@) {
        Some(DesktopKind::Cosmic)
    } else if contains(combined, "kde"@) || contains(combined, "plasma"@) {
        Some(DesktopKind::Kde)
    } else if contains(combined, "cinnamon"@) {
        Some(DesktopKind::Cinnamon)
    } else if contains(combined, "xfce"@) {
        Some(DesktopKind::Xfce)
    } else if contains(combined, "i3"@) {
        Some(DesktopKind::I3)
    } else if contains(combined, "sway"@) {
        Some(DesktopKind::Sway)
    } else if contains(combined, "hyprland"@) {
        Some(DesktopKind::Hyprland)
    } else {
        None
    }
}

fn mentions(hay: &Vec<char>, needle: &str) -> (r: bool)
    ensures
        r == contains(hay@, needle@),
{
    let n = chars_of(needle);
    find_in(hay, &n).is_some()
}

/// Classifies the desktop from XDG_CURRENT_DESKTOP and XDG_SESSION_DESKTOP.
pub fn classify_desktop(xdg_current: &str, xdg_session: &str) -> (r: Option<DesktopKind>)
    ensures
        r == desktop_of(lower_of(xdg_current@) + " "@ + lower_of(xdg_session@)),
{
    let mut combined = lowercase(xdg_current);
    combined.append(" ");
    let session = lowercase(xdg_session);
    combined.append(session.as_str());
    let c = chars_of(combined.as_str());
    if mentions(&c, "pop") {
        Some(DesktopKind::Pop)
    } else if mentions(&c, "gnome") || mentions(&c, "unity") || mentions(&c, "pantheon") {
        Some(DesktopKind::Gnome)
    } else if mentions(&c, "cosmic") {
        Some(DesktopKind::Cosmic)
    } else if mentions(&c, "kde") || mentions(&c, "plasma") {
        Some(DesktopKind::Kde)
    } else if mentions(&c, "cinnamon") {
        Some(DesktopKind::Cinnamon)
    } else if mentions(&c, "xfce") {
        Some(DesktopKind::Xfce)
    } else if mentions(&c, "i3") {
        Some(DesktopKind::I3)
    } else if mentions(&c, "sway") {
        Some(DesktopKind::Sway)
    } else if mentions(&c, "hyprland") {
        Some(DesktopKind::Hyprland)
    } else {
        None
    }
}

impl DesktopKind {
    /// The name reported for the desktop.
    pub fn name(&self) -> (r: &'static str)
        ensures
            r@ == match *self {
                DesktopKind::Pop => "Pop"@,
                DesktopKind::Gnome => "GNOME"@,
                DesktopKind::Cosmic => "COSMIC"@,
                DesktopKind::Kde => "KDE Plasma"@,
                DesktopKind::Cinnamon => "Cinnamon"@,
                DesktopKind::Xfce => "XFCE"@,
                DesktopKind::I3 => "i3"@,
                DesktopKind::Sway => "Sway"@,
                DesktopKind::Hyprland => "Hyprland"@,
            },
    {
        match self {
            DesktopKind::Pop => "Pop",
            DesktopKind::Gnome => "GNOME",
            DesktopKind::Cosmic => "COSMIC",
            DesktopKind::Kde => "KDE Plasma",
            DesktopKind::Cinnamon => "Cinnamon",
            DesktopKind::Xfce => "XFCE",
            DesktopKind::I3 => "i3",
            DesktopKind::Sway => "Sway",
            DesktopKind::Hyprland => "Hyprland",
        }
    }
}

/// Whether a config line mentions this application itself.
pub open spec fn mentions_self(line: Seq<char>) -> bool {
    contains(line, "clipboard-history"@) || contains(line, "win11"@)
}

/// Whether an i3 or Sway config line binds Super+V to something else: the
/// line, lowercase and trimmed, is not a comment, binds a key (bindsym or
/// bindcode), mentions mod4+v or $mod+v, and does not mention this
/// application.
pub open spec fn tiling_conflict(line: Seq<char>) -> bool {
    let l = trimmed(lower_of(line));
    &&& !occurs_at(l, "#"@, 0)
    &&& contains(l, "bindsym"@) || contains(l, "bindcode"@)
    &&& contains(l, "mod4+v"@) || contains(l, "$mod+v"@)
    &&& !mentions_self(l)
}

/// Whether a Hyprland config line binds SUPER, V to something else: the
/// line, lowercase and trimmed, starts with "bind", mentions super and a
/// V key field, and does not mention this application.
pub open spec fn hyprland_conflict(line: Seq<char>) -> bool {
    let l = trimmed(lower_of(line));
    &&& occurs_at(l, "bind"@, 0)
    &&& contains(l, "super"@)
    &&& contains(l, ", v,"@) || contains(l, ",v,"@)
    &&& !mentions_self(l)
}

/// Whether a line of XFCE's shortcut listing binds <Super>v to something else.
pub open spec fn xfce_conflict(line: Seq<char>) -> bool {
    let l = lower_of(line);
    contains(l, "<super>v"@) && !mentions_self(l)
}

fn lower_trimmed(line: &str) -> (r: Vec<char>)
    ensures
        r@ == trimmed(lower_of(line@)),
{
    let lower = lowercase(line);
    let cs = chars_of(lower.as_str());
    trim_chars(&cs)
}

fn starts(hay: &Vec<char>, prefix: &str) -> (r: bool)
    ensures
        r == occurs_at(hay@, prefix@, 0),
{
    let p = chars_of(prefix);
    matches_at(hay, &p, 0)
}

fn mentions_self_exec(l: &Vec<char>) -> (r: bool)
    ensures
        r == mentions_self(l@),
{
    mentions(l, "clipboard-history") || mentions(l, "win11")
}

/// Checks one line of an i3 or Sway config.
pub fn tiling_line_conflicts(line: &str) -> (r: bool)
    ensures
        r == tiling_conflict(line@),
{
    let l = lower_trimmed(line);
    !starts(&l, "#") && (mentions(&l, "bindsym") || mentions(&l, "bindcode")) && (mentions(&l, "mod4+v") || mentions(&l, "$mod+v"))
        && !mentions_self_exec(&l)
}

/// Checks one line of a Hyprland config.
pub fn hyprland_line_conflicts(line: &str) -> (r: bool)
    ensures
        r == hyprland_conflict(line@),
{
    let l = lower_trimmed(line);
    starts(&l, "bind") && mentions(&l, "super") && (mentions(&l, ", v,") || mentions(&l, ",v,")) && !mentions_self_exec(&l)
}

/// Checks one line of XFCE's shortcut listing.
pub fn xfce_line_conflicts(line: &str) -> (r: bool)
    ensures
        r == xfce_conflict(line@),
{
    let lower = lowercase(line);
    let l = chars_of(lower.as_str());
    mentions(&l, "<super>v") && !mentions_self_exec(&l)
}

/// Which registration tools are installed.
#[derive(Debug, Clone, Copy, PartialEq, Eq, Structural)]
pub struct ShortcutTools {
    pub gsettings: bool,
    pub dconf: bool,
    pub kwriteconfig5: bool,
    pub kwriteconfig6: bool,
    pub xfconf_query: bool,
}

/// Whether shortcuts can be registered on a desktop (named as
/// `DesktopKind::name` gives it) with the installed tools: GNOME-like
/// desktops need gsettings or dconf, KDE its kwriteconfig, XFCE
/// xfconf-query; desktops configured by files need nothing; others fall
/// back to gsettings.
pub open spec fn can_register(de: Seq<char>, t: ShortcutTools) -> bool {
    if de == "GNOME"@ || de == "Pop"@ || de == "Pop!_OS"@ || de == "Cinnamon"@ || de == "MATE"@ || de == "Budgie"@ || de == "Deepin"@ {
        t.gsettings || t.dconf
    } else if de == "KDE Plasma"@ {
        t.kwriteconfig5 || t.kwriteconfig6
    } else if de == "XFCE"@ {
        t.xfconf_query
    } else if de == "LXQt"@ || de == "LXDE"@ || de == "COSMIC"@ || de == "i3"@ || de == "Sway"@ || de == "Hyprland"@ {
        true
    } else {
        t.gsettings
    }
}

fn is(a: &str, b: &str) -> (r: bool)
    ensures
        r == (a@ == b@),
{
    String::from_str(a) == String::from_str(b)
}

/// What the settings window shows about shortcut registration.
#[derive(Debug, Clone)]
pub struct ShortcutToolsStatus {
    pub desktop_environment: String,
    pub gsettings_available: bool,
    pub kde_tools_available: bool,
    pub xfce_tools_available: bool,
    pub can_register_automatically: bool,
    pub manual_instructions: String,
    pub has_conflicts: bool,
    pub conflict_count: usize,
    pub can_auto_resolve_conflicts: bool,
}

impl ShortcutToolsStatus {
    /// The status for a desktop, its tools, manual instructions and the
    /// conflicts found on it.
    pub fn new(desktop_environment: String, tools: ShortcutTools, manual_instructions: String, conflicts: &ConflictDetectionResult) -> (r: Self)
        ensures
            r.desktop_environment == desktop_environment,
            r.gsettings_available == tools.gsettings,
            r.kde_tools_available == (tools.kwriteconfig5 || tools.kwriteconfig6),
            r.xfce_tools_available == tools.xfconf_query,
            r.can_register_automatically == can_register(desktop_environment@, tools),
            r.manual_instructions == manual_instructions,
            r.has_conflicts == (conflicts.conflicts@.len() > 0),
            r.conflict_count == conflicts.conflicts@.len(),
            r.can_auto_resolve_conflicts == conflicts.can_auto_resolve,
    {
        let de = desktop_environment.as_str();
        let can = if is(de, "GNOME") || is(de, "Pop") || is(de, "Pop!_OS") || is(de, "Cinnamon") || is(de, "MATE") || is(de, "Budgie")
            || is(de, "Deepin") {
            tools.gsettings || tools.dconf
        } else if is(de, "KDE Plasma") {
            tools.kwriteconfig5 || tools.kwriteconfig6
        } else if is(de, "XFCE") {
            tools.xfconf_query
        } else if is(de, "LXQt") || is(de, "LXDE") || is(de, "COSMIC") || is(de, "i3") || is(de, "Sway") || is(
            de,
            "Hyprland",
        ) {
            true
        } else {
            tools.gsettings
        };
        let n = conflicts.conflicts.len();
        ShortcutToolsStatus {
            desktop_environment,
            gsettings_available: tools.gsettings,
            kde_tools_available: tools.kwriteconfig5 || tools.kwriteconfig6,
            xfce_tools_available: tools.xfconf_query,
            can_register_automatically: can,
            manual_instructions,
            has_conflicts: n > 0,
            conflict_count: n,
            can_auto_resolve_conflicts: conflicts.can_auto_resolve,
        }
    }
}

/// Whether COSMIC's custom shortcuts bind Super+V to something else.
pub open spec fn cosmic_custom_conflict(content: Seq<char>) -> bool {
    contains(lower_of(content), "super"@) && contains(lower_of(content), "\"v\""@) && !contains(content, "penguinclip"@)
}

/// Whether COSMIC's system actions bind Super+V.
pub open spec fn cosmic_system_conflict(content: Seq<char>) -> bool {
    contains(lower_of(content), "super"@) && contains(lower_of(content), "\"v\""@)
}

pub fn cosmic_custom_conflicts(content: &str) -> (r: bool)
    ensures
        r == cosmic_custom_conflict(content@),
{
    let lower = lowercase(content);
    let l = chars_of(lower.as_str());
    let c = chars_of(content);
    mentions(&l, "super") && mentions(&l, "\"v\"") && !mentions(&c, "penguinclip")
}

pub fn cosmic_system_conflicts(content: &str) -> (r: bool)
    ensures
        r == cosmic_system_conflict(content@),
{
    let lower = lowercase(content);
    let l = chars_of(lower.as_str());
    mentions(&l, "super") && mentions(&l, "\"v\"")
}

/// Whether Klipper's settings use Meta+V.
pub fn klipper_conflicts(content: &str) -> (r: bool)
    ensures
        r == contains(content@, "Meta+V"@),
{
    let c = chars_of(content);
    mentions(&c, "Meta+V")
}

/// A section header line of an INI-style file: "[name]".
pub open spec fn is_header(l: Seq<char>) -> bool {
    l.len() >= 2 && l[0] == '[' && l.last() == ']'
}

/// The section that line `i` belongs to: the name of the last header at or
/// before it, or empty.
pub open spec fn section_upto(lines: Seq<Seq<char>>, i: int) -> Seq<char>
    decreases i + 1,
{
    if i < 0 || i >= lines.len() {
        Seq::empty()
    } else if is_header(lines[i]) {
        lines[i].subrange(1, lines[i].len() - 1)
    } else {
        section_upto(lines, i - 1)
    }
}

/// The action a kglobalshortcutsrc line stands for: "section: key" when
/// the line is "key=...", else the section.
pub open spec fn kde_action(lines: Seq<Seq<char>>, i: int) -> Seq<char> {
    let l = lines[i];
    if contains(l, "="@) {
        let p = choose|p: int| first_index_of_eq(l, p);
        section_upto(lines, i) + ": "@ + l.take(p)
    } else {
        section_upto(lines, i)
    }
}

/// `p` is the first '=' in `l`.
pub open spec fn first_index_of_eq(l: Seq<char>, p: int) -> bool {
    0 <= p < l.len() && l[p] == '=' && forall|k: int| 0 <= k < p ==> l[k] != '='
}

/// Whether line `i` binds Meta+V to another application's action.
pub open spec fn kde_line_conflicts(lines: Seq<Seq<char>>, i: int) -> bool {
    (contains(lines[i], "Meta+V"@) || contains(lines[i], "Meta+v"@)) && !mentions_self(kde_action(lines, i))
}

/// The actions of the first `n` lines that bind Meta+V, in order.
pub open spec fn kde_conflict_actions(lines: Seq<Seq<char>>, n: int) -> Seq<Seq<char>>
    decreases n,
{
    if n <= 0 {
        Seq::empty()
    } else if kde_line_conflicts(lines, n - 1) {
        kde_conflict_actions(lines, n - 1).push(kde_action(lines, n - 1))
    } else {
        kde_conflict_actions(lines, n - 1)
    }
}

proof fn lemma_first_eq(l: Seq<char>, i: int)
    requires
        occurs_at(l, "="@, i),
        forall|j: int| 0 <= j < i ==> !occurs_at(l, "="@, j),
    ensures
        first_index_of_eq(l, i),
        forall|p: int| first_index_of_eq(l, p) ==> p == i,
{
    reveal_strlit("=");
    assert(l.subrange(i, i + 1)[0] == l[i]);
    assert("="@.len() == 1 && "="@[0] == '=');
    assert forall|k: int| 0 <= k < i implies l[k] != '=' by {
        if l[k] == '=' {
            assert(l.subrange(k, k + 1) =~= "="@);
            assert(occurs_at(l, "="@, k));
        }
    }
    assert forall|p: int| first_index_of_eq(l, p) implies p == i by {
        if p < i {
            assert(l.subrange(p, p + 1) =~= "="@);
            assert(occurs_at(l, "="@, p));
        }
    }
}

/// The actions bound to Meta+V in kglobalshortcutsrc, given as lines,
/// leaving out this application's own.
pub fn kde_conflicting_actions(lines: &Vec<String>) -> (r: Vec<String>)
    ensures
        r@.map_values(|s: String| s@) == kde_conflict_actions(lines@.map_values(|s: String| s@), lines@.len() as int),
{
    let ghost ls = lines@.map_values(|s: String| s@);
    let mut out: Vec<String> = Vec::new();
    let mut section = String::new();
    let mut i: usize = 0;
    while i < lines.len()
        invariant
            0 <= i <= lines@.len(),
            ls == lines@.map_values(|s: String| s@),
            section@ == section_upto(ls, i - 1),
            out@.map_values(|s: String| s@) == kde_conflict_actions(ls, i as int),
        decreases lines@.len() - i,
    {
        let line = chars_of(lines[i].as_str());
        assert(line@ == ls[i as int]);
        let n = line.len();
        if n >= 2 && line[0] == '[' && line[n - 1] == ']' {
            section = string_of(&line, 1, n - 1);
        }
        assert(section@ == section_upto(ls, i as int));
        if mentions(&line, "Meta+V") || mentions(&line, "Meta+v") {
            let eq = chars_of("=");
            let mut action = String::from_str(section.as_str());
            match find_in(&line, &eq) {
                Some(p) => {
                    proof {
                        lemma_first_eq(line@, p as int);
                    }
                    action.append(": ");
                    let key = string_of(&line, 0, p);
                    action.append(key.as_str());
                    assert(line@.subrange(0, p as int) =~= line@.take(p as int));
                },
                None => {},
            }
            assert(action@ == kde_action(ls, i as int));
            let a = chars_of(action.as_str());
            if !mentions_self_exec(&a) {
                let ghost before = out@;
                out.push(action);
                assert(out@.map_values(|s: String| s@) =~= before.map_values(|s: String| s@).push(a@));
            }
        }
        i = i + 1;
    }
    out
}

/// The first conflict at or after `from` that has a resolution command:
/// automatic resolution runs these in order and stops at the first failure.
pub fn next_resolution(conflicts: &Vec<ShortcutConflict>, from: usize) -> (r: Option<usize>)
    ensures
        match r {
            Some(k) => from <= k < conflicts@.len() && conflicts@[k as int].resolution_command is Some
                && forall|j: int| from <= j < k ==> (#[trigger] conflicts@[j]).resolution_command is None,
            None => forall|j: int| from <= j < conflicts@.len() ==> (#[trigger] conflicts@[j]).resolution_command is None,
        },
{
    let mut k: usize = from;
    while k < conflicts.len()
        invariant
            from <= k,
            forall|j: int| from <= j < k && j < conflicts@.len() ==> (#[trigger] conflicts@[j]).resolution_command is None,
        decreases conflicts@.len() - k,
    {
        if conflicts[k].resolution_command.is_some() {
            return Some(k);
        }
        k = k + 1;
    }
    None
}

/// The report of a resolved conflict: "Resolved: owner (binding)".
pub fn resolved_note(c: &ShortcutConflict) -> (r: String)
    ensures
        r@ == "Resolved: "@ + c.owner@ + " ("@ + c.binding@ + ")"@,
{
    let mut s = String::from_str("Resolved: ");
    s.append(c.owner.as_str());
    s.append(" (");
    s.append(c.binding.as_str());
    s.append(")");
    s
}

/// The error of a failed resolution: "Failed to resolve owner: error".
pub fn resolution_failure(c: &ShortcutConflict, error: &str) -> (r: String)
    ensures
        r@ == "Failed to resolve "@ + c.owner@ + ": "@ + error@,
{
    let mut s = String::from_str("Failed to resolve ");
    s.append(c.owner.as_str());
    s.append(": ");
    s.append(error);
    s
}

} // verus!
