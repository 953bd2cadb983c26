//! The choice between the dark and the light styling of the page.

use vstd::prelude::*;

verus! {

/// The theme that the user chose.
#[derive(Clone, Copy, Debug, PartialEq, Eq, Structural)]
pub enum SelectedTheme {
    Automatic,
    DarkMode,
    LightMode,
}

/// The styling that the page is given.
#[derive(Clone, Copy, Debug, PartialEq, Eq, Structural)]
pub enum Styling {
    Dark,
    Light,
}

/// The styling that `selected` asks for on a host that prefers dark pages or
/// does not: the chosen one, and under `Automatic` the host's preference.
pub open spec fn styling_of(selected: SelectedTheme, prefers_dark: bool) -> Styling {
    match selected {
        SelectedTheme::Automatic => if prefers_dark {
            Styling::Dark
        } else {
            Styling::Light
        },
        SelectedTheme::DarkMode => Styling::Dark,
        SelectedTheme::LightMode => Styling::Light,
    }
}

impl SelectedTheme {
    /// The theme to start with, given what was stored from an earlier visit:
    /// the stored theme, and `Automatic` where nothing readable was stored.
    pub fn restored(stored: Option<SelectedTheme>) -> (theme: SelectedTheme)
        ensures
            theme == match stored {
                Some(chosen) => chosen,
                None => SelectedTheme::Automatic,
            },
    {
        match stored {
            Some(chosen) => chosen,
            None => SelectedTheme::Automatic,
        }
    }

    /// The styling that this theme asks for on a host that prefers dark
    /// pages or does not.
    pub fn styling(self, prefers_dark: bool) -> (styling: Styling)
        ensures
            styling == styling_of(self, prefers_dark),
    {
        match self {
            SelectedTheme::Automatic => {
                if prefers_dark {
                    Styling::Dark
                } else {
                    Styling::Light
                }
            },
            SelectedTheme::DarkMode => Styling::Dark,
            SelectedTheme::LightMode => Styling::Light,
        }
    }
}

} // verus!
