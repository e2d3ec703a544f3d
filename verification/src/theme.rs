//! The shell's theme: light, dark, or following the system.
use vstd::prelude::*;

use crate::text::{chars_eq, chars_of, trim_chars, trim_spec, CharClass};

verus! {

/// The theme the user picked.
#[derive(Debug, Clone, Copy, PartialEq, Eq, Structural)]
pub enum ThemeMode {
    Light,
    Dark,
    Auto,
}

/// The theme in effect.
#[derive(Debug, Clone, Copy, PartialEq, Eq, Structural)]
pub enum ResolvedTheme {
    Light,
    Dark,
}


/// The name under which a theme mode is saved.
pub open spec fn mode_name(mode: ThemeMode) -> Seq<char> {
    match mode {
        ThemeMode::Light => "light"@,
        ThemeMode::Dark => "dark"@,
        ThemeMode::Auto => "auto"@,
    }
}

/// The name under which the settings show a theme mode.
pub open spec fn mode_title(mode: ThemeMode) -> Seq<char> {
    match mode {
        ThemeMode::Light => "Light"@,
        ThemeMode::Dark => "Dark"@,
        ThemeMode::Auto => "Auto"@,
    }
}

/// The theme mode that a saved text names: the text, trimmed, is `light`,
/// `dark` or `auto`.
pub open spec fn mode_named(value: Seq<char>) -> Option<ThemeMode> {
    let t = trim_spec(value, CharClass::Whitespace);
    if t == "light"@ {
        Some(ThemeMode::Light)
    } else if t == "dark"@ {
        Some(ThemeMode::Dark)
    } else if t == "auto"@ {
        Some(ThemeMode::Auto)
    } else {
        None
    }
}

impl ThemeMode {
    /// The name under which the mode is saved.
    pub fn as_str(self) -> (r: &'static str)
        ensures
            r@ == mode_name(self),
    {
        match self {
            ThemeMode::Light => "light",
            ThemeMode::Dark => "dark",
            ThemeMode::Auto => "auto",
        }
    }

    /// The mode that a saved text names, surrounding whitespace aside.
    pub fn from_str(value: &str) -> (r: Option<ThemeMode>)
        ensures
            r == mode_named(value@),
    {
        let chars = chars_of(value);
        let t = trim_chars(&chars, CharClass::Whitespace);
        if chars_eq(&t, &chars_of("light")) {
            Some(ThemeMode::Light)
        } else if chars_eq(&t, &chars_of("dark")) {
            Some(ThemeMode::Dark)
        } else if chars_eq(&t, &chars_of("auto")) {
            Some(ThemeMode::Auto)
        } else {
            None
        }
    }

    /// The mode's name as the settings show it.
    pub fn title(self) -> (r: &'static str)
        ensures
            r@ == mode_title(self),
    {
        match self {
            ThemeMode::Light => "Light",
            ThemeMode::Dark => "Dark",
            ThemeMode::Auto => "Auto",
        }
    }
}

/// A saved mode reads back as itself.
pub proof fn lemma_mode_name_round_trip(mode: ThemeMode)
    ensures
        mode_named(mode_name(mode)) == Some(mode),
{
    reveal_strlit("light");
    reveal_strlit("dark");
    reveal_strlit("auto");
    crate::text::lemma_trim_untouched(mode_name(mode), CharClass::Whitespace);
}

/// The theme in effect under `mode`, where the system's own style is dark
/// or not: the mode's own theme, or under `Auto` the system's.
pub fn resolve_theme(theme_mode: ThemeMode, system_is_dark: bool) -> (r: ResolvedTheme)
    ensures
        r == match theme_mode {
            ThemeMode::Light => ResolvedTheme::Light,
            ThemeMode::Dark => ResolvedTheme::Dark,
            ThemeMode::Auto => if system_is_dark {
                ResolvedTheme::Dark
            } else {
                ResolvedTheme::Light
            },
        },
{
    match theme_mode {
        ThemeMode::Light => ResolvedTheme::Light,
        ThemeMode::Dark => ResolvedTheme::Dark,
        ThemeMode::Auto => if system_is_dark {
            ResolvedTheme::Dark
        } else {
            ResolvedTheme::Light
        },
    }
}

/// The color scheme that the style manager is set to.
#[derive(Debug, Clone, Copy, PartialEq, Eq, Structural)]
pub enum ColorSchemeChoice {
    ForceLight,
    ForceDark,
    Default,
}

/// The color scheme that applies `mode`: forced light, forced dark, or the
/// system's default under `Auto`.
pub fn color_scheme_for(theme_mode: ThemeMode) -> (r: ColorSchemeChoice)
    ensures
        r == match theme_mode {
            ThemeMode::Light => ColorSchemeChoice::ForceLight,
            ThemeMode::Dark => ColorSchemeChoice::ForceDark,
            ThemeMode::Auto => ColorSchemeChoice::Default,
        },
{
    match theme_mode {
        ThemeMode::Light => ColorSchemeChoice::ForceLight,
        ThemeMode::Dark => ColorSchemeChoice::ForceDark,
        ThemeMode::Auto => ColorSchemeChoice::Default,
    }
}

/// The mode that the saved settings give, from the contents of the settings
/// file where it could be read: the mode it names, else `Light`.
pub fn theme_mode_from_contents(contents: Option<&str>) -> (r: ThemeMode)
    ensures
        r == match contents {
            Some(c) => match mode_named(c@) {
                Some(m) => m,
                None => ThemeMode::Light,
            },
            None => ThemeMode::Light,
        },
{
    match contents {
        Some(c) => match ThemeMode::from_str(c) {
            Some(m) => m,
            None => ThemeMode::Light,
        },
        None => ThemeMode::Light,
    }
}

} // verus!
