//! How the main window lays itself out: the layout of each breakpoint, the
//! portrait device profile, the window's size and its theme class.
use vstd::prelude::*;

use crate::shell::LayoutMode;
use crate::theme::ResolvedTheme;

verus! {

/// What a layout mode sets on the window: its style class, the spacing of
/// the stage, and whether the carousel takes long swipes.
#[derive(Debug, Clone, Copy, PartialEq, Eq)]
pub struct LayoutProfile {
    pub css_class: &'static str,
    pub stage_spacing: i32,
    pub allow_long_swipes: bool,
}

/// The layout of each mode: compact is spaced 14 and takes no long swipes;
/// regular is spaced 18 and expanded 22, both taking long swipes.
pub fn layout_profile(mode: LayoutMode) -> (r: LayoutProfile)
    ensures
        (r.css_class@, r.stage_spacing, r.allow_long_swipes) == match mode {
            LayoutMode::Compact => ("layout-compact"@, 14i32, false),
            LayoutMode::Regular => ("layout-regular"@, 18i32, true),
            LayoutMode::Expanded => ("layout-expanded"@, 22i32, true),
        },
{
    match mode {
        LayoutMode::Compact => LayoutProfile {
            css_class: "layout-compact",
            stage_spacing: 14,
            allow_long_swipes: false,
        },
        LayoutMode::Regular => LayoutProfile {
            css_class: "layout-regular",
            stage_spacing: 18,
            allow_long_swipes: true,
        },
        LayoutMode::Expanded => LayoutProfile {
            css_class: "layout-expanded",
            stage_spacing: 22,
            allow_long_swipes: true,
        },
    }
}

/// Whether a monitor of this size is the portrait handheld profile: taller
/// than wide, and at most 900 pixels wide.
pub fn is_portrait_device(width: i32, height: i32) -> (r: bool)
    ensures
        r == (height > width && width <= 900),
{
    height > width && width <= 900
}

/// The width the window keeps when it is made as tall as the screen: its
/// default width where it has one, else 460.
pub fn window_width(default_width: i32) -> (r: i32)
    ensures
        r == if default_width > 0 {
            default_width
        } else {
            460
        },
{
    if default_width > 0 {
        default_width
    } else {
        460
    }
}

/// The window's style class for a theme.
pub fn theme_css_class(theme: ResolvedTheme) -> (r: &'static str)
    ensures
        r@ == match theme {
            ResolvedTheme::Light => "theme-light"@,
            ResolvedTheme::Dark => "theme-dark"@,
        },
{
    match theme {
        ResolvedTheme::Light => "theme-light",
        ResolvedTheme::Dark => "theme-dark",
    }
}

} // verus!
