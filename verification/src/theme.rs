//! The colours of the two themes.

use crate::models::Theme;
use vstd::prelude::*;

verus! {

/// A colour, by its red, green and blue parts.
#[derive(Clone, Copy, Debug, PartialEq, Eq, Structural)]
pub struct Rgb {
    pub r: u8,
    pub g: u8,
    pub b: u8,
}

/// The colours that a theme gives to the parts of a window.
#[derive(Clone, Copy, Debug, PartialEq, Eq, Structural)]
pub struct Palette {
    /// Whether the theme starts from the toolkit's dark look.
    pub dark: bool,
    pub noninteractive_bg: Rgb,
    pub noninteractive_fg: Rgb,
    pub inactive_bg: Rgb,
    pub inactive_fg: Rgb,
    pub hovered_bg: Rgb,
    pub hovered_fg: Rgb,
    pub active_bg: Rgb,
    pub active_fg: Rgb,
    pub selection_bg: Rgb,
    pub selection_stroke: Rgb,
    pub panel_fill: Rgb,
    pub window_fill: Rgb,
    pub extreme_bg: Rgb,
}

/// The palette of a theme. Both themes draw on the same scale of browns,
/// one from its dark end and one from its light end.
pub open spec fn palette_of(theme: Theme) -> Palette {
    let cream = Rgb { r: 251, g: 241, b: 199 };
    let sand = Rgb { r: 235, g: 219, b: 178 };
    let coal = Rgb { r: 40, g: 40, b: 40 };
    let soot = Rgb { r: 60, g: 56, b: 54 };
    match theme {
        Theme::GruvboxDark => Palette {
            dark: true,
            noninteractive_bg: coal,
            noninteractive_fg: sand,
            inactive_bg: soot,
            inactive_fg: sand,
            hovered_bg: Rgb { r: 80, g: 73, b: 69 },
            hovered_fg: cream,
            active_bg: Rgb { r: 254, g: 128, b: 25 },
            active_fg: coal,
            selection_bg: Rgb { r: 131, g: 165, b: 152 },
            selection_stroke: cream,
            panel_fill: coal,
            window_fill: coal,
            extreme_bg: soot,
        },
        Theme::GruvboxLight => Palette {
            dark: false,
            noninteractive_bg: cream,
            noninteractive_fg: soot,
            inactive_bg: sand,
            inactive_fg: soot,
            hovered_bg: Rgb { r: 213, g: 196, b: 161 },
            hovered_fg: coal,
            active_bg: Rgb { r: 175, g: 58, b: 3 },
            active_fg: cream,
            selection_bg: Rgb { r: 7, g: 102, b: 120 },
            selection_stroke: cream,
            panel_fill: cream,
            window_fill: cream,
            extreme_bg: sand,
        },
    }
}

/// The palette of a theme.
pub fn apply_theme(theme: Theme) -> (palette: Palette)
    ensures
        palette == palette_of(theme),
{
    match theme {
        Theme::GruvboxDark => apply_gruvbox_dark(),
        Theme::GruvboxLight => apply_gruvbox_light(),
    }
}

fn apply_gruvbox_dark() -> (palette: Palette)
    ensures
        palette == palette_of(Theme::GruvboxDark),
{
    let bg0 = Rgb { r: 40, g: 40, b: 40 };
    let bg1 = Rgb { r: 60, g: 56, b: 54 };
    let bg2 = Rgb { r: 80, g: 73, b: 69 };
    let fg0 = Rgb { r: 251, g: 241, b: 199 };
    let fg1 = Rgb { r: 235, g: 219, b: 178 };
    let blue = Rgb { r: 131, g: 165, b: 152 };
    let orange = Rgb { r: 254, g: 128, b: 25 };
    Palette {
        dark: true,
        noninteractive_bg: bg0,
        noninteractive_fg: fg1,
        inactive_bg: bg1,
        inactive_fg: fg1,
        hovered_bg: bg2,
        hovered_fg: fg0,
        active_bg: orange,
        active_fg: bg0,
        selection_bg: blue,
        selection_stroke: fg0,
        panel_fill: bg0,
        window_fill: bg0,
        extreme_bg: bg1,
    }
}

fn apply_gruvbox_light() -> (palette: Palette)
    ensures
        palette == palette_of(Theme::GruvboxLight),
{
    let bg0 = Rgb { r: 251, g: 241, b: 199 };
    let bg1 = Rgb { r: 235, g: 219, b: 178 };
    let bg2 = Rgb { r: 213, g: 196, b: 161 };
    let fg0 = Rgb { r: 40, g: 40, b: 40 };
    let fg1 = Rgb { r: 60, g: 56, b: 54 };
    let blue = Rgb { r: 7, g: 102, b: 120 };
    let orange = Rgb { r: 175, g: 58, b: 3 };
    Palette {
        dark: false,
        noninteractive_bg: bg0,
        noninteractive_fg: fg1,
        inactive_bg: bg1,
        inactive_fg: fg1,
        hovered_bg: bg2,
        hovered_fg: fg0,
        active_bg: orange,
        active_fg: bg0,
        selection_bg: blue,
        selection_stroke: bg0,
        panel_fill: bg0,
        window_fill: bg0,
        extreme_bg: bg1,
    }
}

} // verus!
