//! Global shortcut definitions and the text they are written with into
//! desktop configuration files.
use vstd::prelude::*;
use crate::format::push_char;
use crate::text::{chars_of, find_in, occurs_at};

verus! {

/// A global shortcut and its binding in each desktop's syntax.
#[derive(Debug, Clone)]
pub struct ShortcutConfig {
    pub id: &'static str,
    pub name: &'static str,
    pub command: &'static str,
    /// Command-line arguments, possibly empty.
    pub args: &'static str,
    pub gnome_binding: &'static str,
    pub kde_binding: &'static str,
    pub xfce_binding: &'static str,
    pub cosmic_mods: &'static str,
    pub cosmic_key: &'static str,
    pub i3_binding: &'static str,
    pub sway_binding: &'static str,
    pub hyprland_binding: &'static str,
    pub lxde_binding: &'static str,
}

impl ShortcutConfig {
    /// The command with its arguments, separated by a space when there are any.
    pub fn full_command(&self) -> (r: String)
        ensures
            r@ == if self.args@.len() == 0 {
                self.command@
            } else {
                self.command@ + " "@ + self.args@
            },
    {
        let mut s = String::from_str(self.command);
        if !self.args.is_empty() {
            s.append(" ");
            s.append(self.args);
        }
        s
    }
}

/// Why registering a shortcut failed.
#[derive(Debug, Clone)]
pub enum ShortcutError {
    Io(String),
    CommandFailed { cmd: String, stderr: String },
    DependencyMissing(String),
    ParseError(String),
    UnsupportedEnvironment(String),
}

impl ShortcutError {
    /// A description for logs.
    pub fn message(&self) -> (r: String)
        ensures
            r@ == match self {
                ShortcutError::Io(e) => "IO Error: "@ + e@,
                ShortcutError::CommandFailed { cmd, stderr } => "Command '"@ + cmd@ + "' failed: "@ + stderr@,
                ShortcutError::DependencyMissing(d) => "Missing dependency: "@ + d@,
                ShortcutError::ParseError(p) => "Config parse error: "@ + p@,
                ShortcutError::UnsupportedEnvironment(e) => "Unsupported environment: "@ + e@,
            },
    {
        match self {
            ShortcutError::Io(e) => {
                let mut s = String::from_str("IO Error: ");
                s.append(e.as_str());
                s
            },
            ShortcutError::CommandFailed { cmd, stderr } => {
                let mut s = String::from_str("Command '");
                s.append(cmd.as_str());
                s.append("' failed: ");
                s.append(stderr.as_str());
                s
            },
            ShortcutError::DependencyMissing(d) => {
                let mut s = String::from_str("Missing dependency: ");
                s.append(d.as_str());
                s
            },
            ShortcutError::ParseError(p) => {
                let mut s = String::from_str("Config parse error: ");
                s.append(p.as_str());
                s
            },
            ShortcutError::UnsupportedEnvironment(e) => {
                let mut s = String::from_str("Unsupported environment: ");
                s.append(e.as_str());
                s
            },
        }
    }
}

/// The XML escape of one character.
pub open spec fn xml_piece(c: char) -> Seq<char> {
    if c == '&' {
        "&amp;"@
    } else if c == '<' {
        "&lt;"@
    } else if c == '>' {
        "&gt;"@
    } else if c == '"' {
        "&quot;"@
    } else if c == '\'' {
        "&apos;"@
    } else {
        seq![c]
    }
}

/// The RON string escape of one character.
pub open spec fn ron_piece(c: char) -> Seq<char> {
    if c == '\\' {
        "\\\\"@
    } else if c == '"' {
        "\\\""@
    } else if c == '\n' {
        "\\n"@
    } else if c == '\r' {
        "\\r"@
    } else if c == '\t' {
        "\\t"@
    } else {
        seq![c]
    }
}

/// A text with each character replaced by its XML escape.
pub open spec fn xml_escaped(t: Seq<char>) -> Seq<char>
    decreases t.len(),
{
    if t.len() == 0 {
        t
    } else {
        xml_escaped(t.drop_last()) + xml_piece(t.last())
    }
}

/// A text with each character replaced by its RON string escape.
pub open spec fn ron_escaped(t: Seq<char>) -> Seq<char>
    decreases t.len(),
{
    if t.len() == 0 {
        t
    } else {
        ron_escaped(t.drop_last()) + ron_piece(t.last())
    }
}

fn push_xml_piece(s: &mut String, c: char)
    ensures
        final(s)@ == old(s)@ + xml_piece(c),
{
    if c == '&' {
        s.append("&amp;");
    } else if c == '<' {
        s.append("&lt;");
    } else if c == '>' {
        s.append("&gt;");
    } else if c == '"' {
        s.append("&quot;");
    } else if c == '\'' {
        s.append("&apos;");
    } else {
        push_char(s, c);
        assert(s@ =~= old(s)@ + seq![c]);
    }
}

fn push_ron_piece(s: &mut String, c: char)
    ensures
        final(s)@ == old(s)@ + ron_piece(c),
{
    if c == '\\' {
        s.append("\\\\");
    } else if c == '"' {
        s.append("\\\"");
    } else if c == '\n' {
        s.append("\\n");
    } else if c == '\r' {
        s.append("\\r");
    } else if c == '\t' {
        s.append("\\t");
    } else {
        push_char(s, c);
        assert(s@ =~= old(s)@ + seq![c]);
    }
}

/// Escapes the characters that are special in XML.
pub fn escape_xml(text: &str) -> (r: String)
    ensures
        r@ == xml_escaped(text@),
{
    let cs = chars_of(text);
    let mut s = String::new();
    let mut i: usize = 0;
    while i < cs.len()
        invariant
            0 <= i <= cs@.len(),
            cs@ == text@,
            s@ == xml_escaped(cs@.take(i as int)),
        decreases cs@.len() - i,
    {
        assert(cs@.take(i + 1).drop_last() =~= cs@.take(i as int));
        push_xml_piece(&mut s, cs[i]);
        i = i + 1;
    }
    assert(cs@.take(i as int) =~= cs@);
    s
}

/// Escapes a text for a RON string literal.
pub fn escape_ron_string(text: &str) -> (r: String)
    ensures
        r@ == ron_escaped(text@),
{
    let cs = chars_of(text);
    let mut s = String::new();
    let mut i: usize = 0;
    while i < cs.len()
        invariant
            0 <= i <= cs@.len(),
            cs@ == text@,
            s@ == ron_escaped(cs@.take(i as int)),
        decreases cs@.len() - i,
    {
        assert(cs@.take(i + 1).drop_last() =~= cs@.take(i as int));
        push_ron_piece(&mut s, cs[i]);
        i = i + 1;
    }
    assert(cs@.take(i as int) =~= cs@);
    s
}

/// Characters that may follow a binding: the line ends, or a space, tab,
/// comment or separator comes.
pub open spec fn is_binding_boundary(c: char) -> bool {
    c == ' ' || c == '\t' || c == '#' || c == ';'
}

/// `i` is the first occurrence of `needle` in `hay`.
pub open spec fn first_occurrence(hay: Seq<char>, needle: Seq<char>, i: int) -> bool {
    occurs_at(hay, needle, i) && forall|j: int| 0 <= j < i ==> !occurs_at(hay, needle, j)
}

/// The first occurrence of `pattern` in `line` is followed by the end of
/// the line or a boundary character.
pub open spec fn binding_at_first(line: Seq<char>, pattern: Seq<char>) -> bool {
    exists|i: int| #[trigger] first_occurrence(line, pattern, i) && (i + pattern.len() == line.len()
        || is_binding_boundary(line[i + pattern.len()]))
}

/// Whether a (trimmed, lowercase) tiling-manager config line binds
/// `$mod+v` or `mod4+v`, judged at the first occurrence of each.
pub open spec fn mod_v_bound(line: Seq<char>) -> bool {
    binding_at_first(line, "$mod+v"@) || binding_at_first(line, "mod4+v"@)
}

fn binds_at_first(line: &Vec<char>, pattern: &str) -> (r: bool)
    ensures
        r == binding_at_first(line@, pattern@),
{
    let pat = chars_of(pattern);
    let n = line.len();
    match find_in(line, &pat) {
        Some(i) => {
            assert(first_occurrence(line@, pat@, i as int));
            assert(i + pat@.len() <= line@.len());
            let end = i + pat.len();
            if end == n {
                true
            } else {
                let c = line[end];
                let r = c == ' ' || c == '\t' || c == '#' || c == ';';
                assert forall|j: int| #[trigger] first_occurrence(line@, pat@, j) implies j == i by {
                    if j < i {
                    } else if j > i {
                        assert(!first_occurrence(line@, pat@, j));
                    }
                }
                r
            }
        },
        None => false,
    }
}

/// Whether a (trimmed, lowercase) i3 or Sway config line binds `$mod+v`
/// or `mod4+v`, followed by the end of the line, a space, a tab, a
/// comment or a separator.
pub fn has_mod_v_binding(trimmed_line: &str) -> (r: bool)
    ensures
        r == mod_v_bound(trimmed_line@),
{
    let line = chars_of(trimmed_line);
    binds_at_first(&line, "$mod+v") || binds_at_first(&line, "mod4+v")
}

} // verus!
