//! Colour themes of the clock face.
use vstd::prelude::*;

use crate::text::{eq_ignore_ascii_case, str_eq_ignore_ascii_case};

verus! {

/// A colour scheme: a vertical gradient from a top colour to a bottom colour.
#[derive(Clone, Copy, Debug, PartialEq, Eq, Structural)]
pub enum Theme {
    Classic,
    Sunset,
    Ocean,
}

/// Position of a theme in the cycle `Classic -> Sunset -> Ocean -> Classic`.
pub open spec fn theme_index(t: Theme) -> int {
    match t {
        Theme::Classic => 0,
        Theme::Sunset => 1,
        Theme::Ocean => 2,
    }
}

pub open spec fn theme_label(t: Theme) -> Seq<char> {
    match t {
        Theme::Classic => "Classic"@,
        Theme::Sunset => "Sunset"@,
        Theme::Ocean => "Ocean"@,
    }
}

/// The theme whose label matches `s` ignoring ASCII case, taken in the order of `Theme::ALL`.
pub open spec fn theme_from_name(s: Seq<char>) -> Option<Theme> {
    if eq_ignore_ascii_case(theme_label(Theme::Classic), s) {
        Some(Theme::Classic)
    } else if eq_ignore_ascii_case(theme_label(Theme::Sunset), s) {
        Some(Theme::Sunset)
    } else if eq_ignore_ascii_case(theme_label(Theme::Ocean), s) {
        Some(Theme::Ocean)
    } else {
        None
    }
}

pub open spec fn theme_next(t: Theme) -> Theme {
    match t {
        Theme::Classic => Theme::Sunset,
        Theme::Sunset => Theme::Ocean,
        Theme::Ocean => Theme::Classic,
    }
}

/// Top and bottom colours of a theme, as RGB triples.
pub open spec fn theme_stops(t: Theme) -> ((u8, u8, u8), (u8, u8, u8)) {
    match t {
        Theme::Classic => ((240, 240, 240), (240, 240, 240)),
        Theme::Sunset => ((255, 120, 60), (170, 50, 180)),
        Theme::Ocean => ((0, 220, 200), (40, 90, 255)),
    }
}

impl Theme {
    /// Every theme, in the order in which `next` visits them.
    pub const ALL: [Theme; 3] = [Theme::Classic, Theme::Sunset, Theme::Ocean];

    /// The theme named `s`, compared without regard to ASCII case.
    pub fn from_name(s: &str) -> (r: Option<Theme>)
        ensures
            r == theme_from_name(s@),
    {
        let mut i: usize = 0;
        while i < 3
            invariant
                0 <= i <= 3,
                forall|j: int|
                    0 <= j < i ==> !eq_ignore_ascii_case(
                        theme_label(#[trigger] Self::ALL[j]),
                        s@,
                    ),
            decreases 3 - i,
        {
            let t = Self::ALL[i];
            if str_eq_ignore_ascii_case(t.label(), s) {
                return Some(t);
            }
            i = i + 1;
        }
        None
    }

    /// The name shown in the settings page and written to the configuration file.
    pub fn label(self) -> (r: &'static str)
        ensures
            r@ == theme_label(self),
    {
        match self {
            Theme::Classic => "Classic",
            Theme::Ocean => "Ocean",
            Theme::Sunset => "Sunset",
        }
    }

    /// The following theme, wrapping around after the last.
    pub fn next(self) -> (r: Theme)
        ensures
            r == theme_next(self),
    {
        match self {
            Theme::Classic => Theme::Sunset,
            Theme::Sunset => Theme::Ocean,
            Theme::Ocean => Theme::Classic,
        }
    }

    /// Colour stops: (top colour, bottom colour).
    pub fn stops(self) -> (r: ((u8, u8, u8), (u8, u8, u8)))
        ensures
            r == theme_stops(self),
    {
        match self {
            Theme::Classic => ((240, 240, 240), (240, 240, 240)),
            Theme::Sunset => ((255, 120, 60), (170, 50, 180)),
            Theme::Ocean => ((0, 220, 200), (40, 90, 255)),
        }
    }
}

/// Stepping `next` three times returns to the starting theme, and each step
/// moves one place forward in `Theme::ALL`.
pub proof fn lemma_next_cycles(t: Theme)
    ensures
        theme_next(theme_next(theme_next(t))) == t,
        theme_index(theme_next(t)) == (theme_index(t) + 1) % 3,
        Theme::ALL[(theme_index(t) + 1) % 3] == theme_next(t),
        Theme::ALL[theme_index(t)] == t,
{
}

/// A label names its theme: reading it back, in any ASCII case, gives the theme.
pub proof fn lemma_from_name_label(t: Theme, s: Seq<char>)
    requires
        eq_ignore_ascii_case(s, theme_label(t)),
    ensures
        theme_from_name(s) == Some(t),
{
    reveal_strlit("Classic");
    reveal_strlit("Sunset");
    reveal_strlit("Ocean");
    let a = theme_label(Theme::Classic);
    let b = theme_label(Theme::Sunset);
    let c = theme_label(Theme::Ocean);
    match t {
        Theme::Classic => {},
        Theme::Sunset => {
            assert(a.len() != b.len());
        },
        Theme::Ocean => {
            assert(a.len() != c.len());
            assert(b.len() != c.len());
        },
    }
}

} // verus!
