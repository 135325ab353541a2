//! Colour themes.

use vstd::prelude::*;

verus! {

/// The colour theme of the whole application.
#[derive(Debug, Clone, Copy, PartialEq, Eq, Structural)]
pub enum Theme {
    Dark,
    Light,
}

/// The name of a theme in a menu.
pub open spec fn theme_label(t: Theme) -> Seq<char> {
    match t {
        Theme::Dark => "Dark"@,
        Theme::Light => "Light"@,
    }
}

/// The other theme.
pub open spec fn toggled(t: Theme) -> Theme {
    match t {
        Theme::Dark => Theme::Light,
        Theme::Light => Theme::Dark,
    }
}

/// The plot background of a theme as red, green, blue.
pub open spec fn plot_bg_rgb(t: Theme) -> (u8, u8, u8) {
    match t {
        Theme::Dark => (20u8, 20u8, 20u8),
        Theme::Light => (255u8, 255u8, 255u8),
    }
}

/// The grid colour of a theme as premultiplied red, green, blue, alpha.
pub open spec fn grid_rgba(t: Theme) -> (u8, u8, u8, u8) {
    match t {
        Theme::Dark => (100u8, 100u8, 100u8, 60u8),
        Theme::Light => (180u8, 180u8, 180u8, 80u8),
    }
}

impl Theme {
    pub fn toggle(&self) -> (r: Theme)
        ensures
            r == toggled(*self),
            r != *self,
    {
        match self {
            Theme::Dark => Theme::Light,
            Theme::Light => Theme::Dark,
        }
    }

    /// The plot background as red, green, blue.
    pub fn plot_bg(&self) -> (c: (u8, u8, u8))
        ensures
            c == plot_bg_rgb(*self),
    {
        match self {
            Theme::Dark => (20, 20, 20),
            Theme::Light => (255, 255, 255),
        }
    }

    /// The grid colour as premultiplied red, green, blue, alpha.
    pub fn grid_color(&self) -> (c: (u8, u8, u8, u8))
        ensures
            c == grid_rgba(*self),
    {
        match self {
            Theme::Dark => (100, 100, 100, 60),
            Theme::Light => (180, 180, 180, 80),
        }
    }

    pub fn label(&self) -> (s: &'static str)
        ensures
            s@ == theme_label(*self),
    {
        match self {
            Theme::Dark => "Dark",
            Theme::Light => "Light",
        }
    }
}

impl Default for Theme {
    fn default() -> (t: Theme)
        ensures
            t == Theme::Dark,
    {
        Theme::Dark
    }
}

} // verus!
