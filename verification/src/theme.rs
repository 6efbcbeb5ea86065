//! Colour palettes of desktop themes.
use vstd::prelude::*;

verus! {

/// The kind of a palette.
#[derive(Clone, Copy, Debug, PartialEq, Eq, Structural)]
pub enum Palette {
    Dark,
    Light,
    HighContrastDark,
    HighContrastLight,
}

impl Palette {
    /// The palette has a dark background.
    pub open spec fn dark(self) -> bool {
        self == Palette::Dark || self == Palette::HighContrastDark
    }

    /// The palette has high contrast.
    pub open spec fn high_contrast(self) -> bool {
        self == Palette::HighContrastDark || self == Palette::HighContrastLight
    }

    /// Whether the palette has a dark background.
    pub fn is_dark(&self) -> (dark: bool)
        ensures
            dark == self.dark(),
    {
        match self {
            Palette::Dark | Palette::HighContrastDark => true,
            Palette::Light | Palette::HighContrastLight => false,
        }
    }
}

/// A recipe for a theme: the kind of its palette, and the rest in the notation of the theme
/// settings.
#[derive(Debug, PartialEq, Eq)]
pub struct ThemeBuilder {
    pub palette: Palette,
    pub notation: String,
}

impl ThemeBuilder {
    /// A copy of the recipe.
    pub fn copy(&self) -> (copy: ThemeBuilder)
        ensures
            copy == *self,
    {
        ThemeBuilder { palette: self.palette, notation: self.notation.clone() }
    }
}

/// The recipe with high contrast turned on or off. A dark theme stays dark and a light one light.
pub fn apply_hc_theme(builder: ThemeBuilder, enabled: bool) -> (changed: ThemeBuilder)
    ensures
        changed.palette.dark() == builder.palette.dark(),
        changed.palette.high_contrast() == enabled,
        changed == (ThemeBuilder { palette: changed.palette, ..builder }),
{
    let palette = if builder.palette.is_dark() {
        if enabled {
            Palette::HighContrastDark
        } else {
            Palette::Dark
        }
    } else if enabled {
        Palette::HighContrastLight
    } else {
        Palette::Light
    };
    ThemeBuilder { palette, notation: builder.notation }
}

/// Turning high contrast on and off again gives back a recipe without high contrast, and the
/// last switch is the one that counts.
pub proof fn law_last_contrast_counts(first: Palette, second: Palette, third: Palette)
    requires
        second.dark() == first.dark(),
        third.dark() == second.dark(),
        third.high_contrast() == first.high_contrast(),
    ensures
        third == first,
{
}

}
