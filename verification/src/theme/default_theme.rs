//! The built-in color theme.

use vstd::prelude::*;

use crate::color::ColorTheme;
use crate::color::Rgba;

verus! {

/// The default palette.
#[derive(Clone, Copy, Debug, PartialEq, Eq, Structural)]
pub struct DefaultTheme;

impl ColorTheme for DefaultTheme {
    open spec fn spec_background() -> Rgba {
        Rgba { r: 2122, g: 2519, b: 3434, a: 100000 }
    }

    open spec fn spec_foreground() -> Rgba {
        Self::spec_yellow()
    }

    open spec fn spec_red() -> Rgba {
        Rgba { r: 74540, g: 14996, b: 17789, a: 100000 }
    }

    open spec fn spec_blue() -> Rgba {
        Rgba { r: 11954, g: 42869, b: 86316, a: 100000 }
    }

    open spec fn spec_purple() -> Rgba {
        Rgba { r: 56471, g: 18782, b: 72306, a: 100000 }
    }

    open spec fn spec_green() -> Rgba {
        Rgba { r: 31399, g: 54572, b: 19120, a: 100000 }
    }

    open spec fn spec_yellow() -> Rgba {
        Rgba { r: 78354, g: 52712, b: 19807, a: 100000 }
    }

    open spec fn spec_orange() -> Rgba {
        Self::spec_yellow()
    }

    fn background() -> Rgba {
        Rgba::new(2122, 2519, 3434, 100000)
    }

    fn foreground() -> Rgba {
        Self::yellow()
    }

    fn red() -> Rgba {
        Rgba::new(74540, 14996, 17789, 100000)
    }

    fn blue() -> Rgba {
        Rgba::new(11954, 42869, 86316, 100000)
    }

    fn purple() -> Rgba {
        Rgba::new(56471, 18782, 72306, 100000)
    }

    fn green() -> Rgba {
        Rgba::new(31399, 54572, 19120, 100000)
    }

    fn yellow() -> Rgba {
        Rgba::new(78354, 52712, 19807, 100000)
    }

    fn orange() -> Rgba {
        Self::yellow()
    }
}

} // verus!
