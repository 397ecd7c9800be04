//! ANSI color configuration: a plain configuration value constructed once
//! per invocation and threaded through the formatters. Painting wraps a
//! string in the style's escape sequence when enabled and leaves it
//! untouched when disabled.

use vstd::prelude::*;

verus! {

/// A terminal style.
#[derive(Clone, Copy, Debug, PartialEq, Eq, Structural)]
pub enum Style {
    Red,
    Green,
    Yellow,
    Cyan,
    Dim,
}

/// The escape sequence that turns a style on.
pub open spec fn spec_style_prefix(s: Style) -> Seq<char> {
    match s {
        Style::Red => seq!['\u{1b}', '[', '3', '1', 'm'],
        Style::Green => seq!['\u{1b}', '[', '3', '2', 'm'],
        Style::Yellow => seq!['\u{1b}', '[', '3', '3', 'm'],
        Style::Cyan => seq!['\u{1b}', '[', '3', '6', 'm'],
        Style::Dim => seq!['\u{1b}', '[', '2', 'm'],
    }
}

/// The escape sequence that turns every style off.
pub open spec fn spec_style_reset() -> Seq<char> {
    seq!['\u{1b}', '[', '0', 'm']
}

/// The painted form of a string: wrapped in the style's escape sequence
/// when colors are enabled, unchanged otherwise.
pub open spec fn spec_paint(enabled: bool, s: Style, text: Seq<char>) -> Seq<char> {
    if enabled {
        spec_style_prefix(s) + text + spec_style_reset()
    } else {
        text
    }
}

/// The lowercase codepoint of a character (ASCII letters only).
pub open spec fn spec_lower_code(c: char) -> int {
    if 'A' <= c && c <= 'Z' {
        c as u32 + 32
    } else {
        c as u32 as int
    }
}

/// Whether `s`, lowered ASCII-wise, spells `lit`.
pub open spec fn spec_eq_lower(s: Seq<char>, lit: Seq<char>) -> bool {
    s.len() == lit.len() && forall|i: int|
        0 <= i < s.len() ==> spec_lower_code(s[i]) == #[trigger] lit[i] as u32 as int
}

/// The environment values that switch colors off: `false`, `0`, `no`,
/// `off` and the empty string, compared case-insensitively.
pub open spec fn spec_env_disables(v: Seq<char>) -> bool {
    ||| spec_eq_lower(v, seq!['f', 'a', 'l', 's', 'e'])
    ||| spec_eq_lower(v, seq!['0'])
    ||| spec_eq_lower(v, seq!['n', 'o'])
    ||| spec_eq_lower(v, seq!['o', 'f', 'f'])
    ||| v.len() == 0
}

/// Whether colors are on: the flag wins, then the environment value (an
/// absent value leaves colors on).
pub open spec fn spec_color_enabled(no_colors_flag: bool, env: Option<Seq<char>>) -> bool {
    if no_colors_flag {
        false
    } else {
        match env {
            Option::None => true,
            Option::Some(v) => !spec_env_disables(v),
        }
    }
}

/// Case-insensitive comparison against a lowercase literal.
fn eq_lower(s: &str, lit: &str) -> (r: bool)
    ensures
        r == spec_eq_lower(s@, lit@),
{
    let n = s.unicode_len();
    if n != lit.unicode_len() {
        return false;
    }
    let mut k: usize = 0;
    while k < n
        invariant
            n == s@.len(),
            n == lit@.len(),
            0 <= k <= n,
            forall|i: int| 0 <= i < k ==> spec_lower_code(s@[i]) == #[trigger] lit@[i] as u32 as int,
        decreases n - k,
    {
        let c = s.get_char(k);
        let code: u32 = if 'A' <= c && c <= 'Z' {
            c as u32 + 32
        } else {
            c as u32
        };
        if code != lit.get_char(k) as u32 {
            return false;
        }
        k = k + 1;
    }
    true
}

/// Per-invocation color configuration.
#[derive(Clone, Copy, Debug, PartialEq, Eq, Structural)]
pub struct ColorConfig {
    pub enabled: bool,
}

impl ColorConfig {
    /// Build the configuration from the applet's flag and the value of the
    /// color environment variable, if set: the flag wins, and only the
    /// values `false`, `0`, `no`, `off` and the empty value (in any case)
    /// switch colors off.
    pub fn from_flag_and_env(no_colors_flag: bool, env_value: &Option<String>) -> (r: ColorConfig)
        ensures
            r.enabled == spec_color_enabled(
                no_colors_flag,
                match env_value {
                    Option::Some(v) => Option::Some(v@),
                    Option::None => Option::<Seq<char>>::None,
                },
            ),
    {
        if no_colors_flag {
            return ColorConfig { enabled: false };
        }
        match env_value {
            None => ColorConfig { enabled: true },
            Some(v) => {
                proof {
                    reveal_strlit("false");
                    reveal_strlit("0");
                    reveal_strlit("no");
                    reveal_strlit("off");
                    assert("false"@ =~= seq!['f', 'a', 'l', 's', 'e']);
                    assert("0"@ =~= seq!['0']);
                    assert("no"@ =~= seq!['n', 'o']);
                    assert("off"@ =~= seq!['o', 'f', 'f']);
                }
                let off = eq_lower(v.as_str(), "false") || eq_lower(v.as_str(), "0") || eq_lower(
                    v.as_str(),
                    "no",
                ) || eq_lower(v.as_str(), "off") || v.as_str().unicode_len() == 0;
                ColorConfig { enabled: !off }
            },
        }
    }

    /// Wrap `text` in the style's escape sequence when colors are enabled;
    /// hand it back unchanged when they are not.
    pub fn paint(&self, style: &Style, text: &str) -> (r: String)
        ensures
            r@ == spec_paint(self.enabled, *style, text@),
    {
        if !self.enabled {
            return String::from_str(text);
        }
        proof {
            reveal_strlit("\u{1b}[31m");
            reveal_strlit("\u{1b}[32m");
            reveal_strlit("\u{1b}[33m");
            reveal_strlit("\u{1b}[36m");
            reveal_strlit("\u{1b}[2m");
            reveal_strlit("\u{1b}[0m");
            assert("\u{1b}[31m"@ =~= spec_style_prefix(Style::Red));
            assert("\u{1b}[32m"@ =~= spec_style_prefix(Style::Green));
            assert("\u{1b}[33m"@ =~= spec_style_prefix(Style::Yellow));
            assert("\u{1b}[36m"@ =~= spec_style_prefix(Style::Cyan));
            assert("\u{1b}[2m"@ =~= spec_style_prefix(Style::Dim));
            assert("\u{1b}[0m"@ =~= spec_style_reset());
        }
        let mut out = match style {
            Style::Red => String::from_str("\u{1b}[31m"),
            Style::Green => String::from_str("\u{1b}[32m"),
            Style::Yellow => String::from_str("\u{1b}[33m"),
            Style::Cyan => String::from_str("\u{1b}[36m"),
            Style::Dim => String::from_str("\u{1b}[2m"),
        };
        out.append(text);
        out.append("\u{1b}[0m");
        out
    }

    /// The style of failure states.
    pub fn red_style(&self) -> (r: Style)
        ensures
            r == Style::Red,
    {
        Style::Red
    }

    /// The style of clean states.
    pub fn green_style(&self) -> (r: Style)
        ensures
            r == Style::Green,
    {
        Style::Green
    }

    /// The style of warnings.
    pub fn yellow_style(&self) -> (r: Style)
        ensures
            r == Style::Yellow,
    {
        Style::Yellow
    }

    /// The style of auxiliary detail.
    pub fn cyan_style(&self) -> (r: Style)
        ensures
            r == Style::Cyan,
    {
        Style::Cyan
    }

    /// The style of de-emphasized text.
    pub fn dim_style(&self) -> (r: Style)
        ensures
            r == Style::Dim,
    {
        Style::Dim
    }
}

} // verus!
