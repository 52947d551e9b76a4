//! The theme document handed through to the UI. Loading a theme from a
//! configuration file lives with the caller; the core only fixes the
//! shape.
use vstd::prelude::*;

verus! {

/// One palette of the theme.
#[derive(Debug, Clone, Default)]
pub struct ThemeColors {
    pub background: String,
    pub background_alt: String,
    pub titlebar_background: String,
    pub text_primary: String,
    pub text_secondary: String,
    pub hover: String,
    pub hover_titlebar: String,
    pub selected: String,
    pub selected_foreground: String,
    pub highlight: String,
    pub outline: String,
}

/// The light and dark palettes of a theme.
#[derive(Debug, Clone, Default)]
pub struct Theme {
    pub light: ThemeColors,
    pub dark: ThemeColors,
}

} // verus!
