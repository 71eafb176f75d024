//! Colors and the color-theme capability. Channels are fixed-point: a
//! channel value counts hundred-thousandths, so `100000` stands for a
//! full channel of linear sRGB.

use vstd::prelude::*;

verus! {

/// One color: red, green, blue and alpha channels, each in units of one
/// hundred-thousandth of a full channel.
#[derive(Clone, Copy, Debug, PartialEq, Eq, Structural)]
pub struct Rgba {
    pub r: u32,
    pub g: u32,
    pub b: u32,
    pub a: u32,
}

impl Rgba {
    /// The color with the given channels.
    pub fn new(r: u32, g: u32, b: u32, a: u32) -> (c: Rgba)
        ensures
            c == (Rgba { r, g, b, a }),
    {
        Rgba { r, g, b, a }
    }
}

/// Trait to color parts of the shell: a fixed palette of named colors.
pub trait ColorTheme {
    /// The background color.
    spec fn spec_background() -> Rgba;

    /// The foreground color.
    spec fn spec_foreground() -> Rgba;

    /// The red of the palette.
    spec fn spec_red() -> Rgba;

    /// The blue of the palette.
    spec fn spec_blue() -> Rgba;

    /// The purple of the palette.
    spec fn spec_purple() -> Rgba;

    /// The green of the palette.
    spec fn spec_green() -> Rgba;

    /// The yellow of the palette.
    spec fn spec_yellow() -> Rgba;

    /// The orange of the palette.
    spec fn spec_orange() -> Rgba;

    /// Background color.
    fn background() -> (c: Rgba)
        ensures
            c == Self::spec_background(),
    ;

    /// Foreground color.
    fn foreground() -> (c: Rgba)
        ensures
            c == Self::spec_foreground(),
    ;

    /// Red color.
    fn red() -> (c: Rgba)
        ensures
            c == Self::spec_red(),
    ;

    /// Blue color.
    fn blue() -> (c: Rgba)
        ensures
            c == Self::spec_blue(),
    ;

    /// Purple color.
    fn purple() -> (c: Rgba)
        ensures
            c == Self::spec_purple(),
    ;

    /// Green color.
    fn green() -> (c: Rgba)
        ensures
            c == Self::spec_green(),
    ;

    /// Yellow color.
    fn yellow() -> (c: Rgba)
        ensures
            c == Self::spec_yellow(),
    ;

    /// Orange color.
    fn orange() -> (c: Rgba)
        ensures
            c == Self::spec_orange(),
    ;
}

} // verus!
