//! Colours with eight bits per channel.

use vstd::prelude::*;

verus! {

/// A colour with red, green, blue and alpha channels, each from 0 (none) to 255 (full).
#[derive(Debug, Copy, Clone, PartialEq, Eq, Structural)]
pub struct Colour {
    pub r: u8,
    pub g: u8,
    pub b: u8,
    pub a: u8,
}

impl Colour {
    /// The opaque colour with the given channels.
    pub open spec fn spec_rgb(r: u8, g: u8, b: u8) -> Colour {
        Colour { r, g, b, a: 255 }
    }

    /// The channels in the order in which a vertex carries them.
    pub open spec fn channels(self) -> Seq<u8> {
        seq![self.r, self.g, self.b, self.a]
    }

    /// An opaque colour.
    pub fn rgb(r: u8, g: u8, b: u8) -> (c: Colour)
        ensures
            c == Colour::spec_rgb(r, g, b),
    {
        Colour { r, g, b, a: 255 }
    }

    /// A colour with the given opacity.
    pub fn rgba(r: u8, g: u8, b: u8, a: u8) -> (c: Colour)
        ensures
            c == (Colour { r, g, b, a }),
    {
        Colour { r, g, b, a }
    }

    pub open spec fn spec_white() -> Colour {
        Colour { r: 255, g: 255, b: 255, a: 255 }
    }

    #[verifier::when_used_as_spec(spec_white)]
    pub fn white() -> (c: Colour)
        ensures
            c == Colour::spec_white(),
    {
        Colour { r: 255, g: 255, b: 255, a: 255 }
    }

    pub open spec fn spec_black() -> Colour {
        Colour { r: 0, g: 0, b: 0, a: 255 }
    }

    #[verifier::when_used_as_spec(spec_black)]
    pub fn black() -> (c: Colour)
        ensures
            c == Colour::spec_black(),
    {
        Colour { r: 0, g: 0, b: 0, a: 255 }
    }

    pub open spec fn spec_clear() -> Colour {
        Colour { r: 255, g: 255, b: 255, a: 0 }
    }

    #[verifier::when_used_as_spec(spec_clear)]
    pub fn clear() -> (c: Colour)
        ensures
            c == Colour::spec_clear(),
    {
        Colour { r: 255, g: 255, b: 255, a: 0 }
    }

    pub open spec fn spec_red() -> Colour {
        Colour { r: 255, g: 0, b: 0, a: 255 }
    }

    #[verifier::when_used_as_spec(spec_red)]
    pub fn red() -> (c: Colour)
        ensures
            c == Colour::spec_red(),
    {
        Colour { r: 255, g: 0, b: 0, a: 255 }
    }

    pub open spec fn spec_green() -> Colour {
        Colour { r: 0, g: 255, b: 0, a: 255 }
    }

    #[verifier::when_used_as_spec(spec_green)]
    pub fn green() -> (c: Colour)
        ensures
            c == Colour::spec_green(),
    {
        Colour { r: 0, g: 255, b: 0, a: 255 }
    }

    pub open spec fn spec_blue() -> Colour {
        Colour { r: 0, g: 0, b: 255, a: 255 }
    }

    #[verifier::when_used_as_spec(spec_blue)]
    pub fn blue() -> (c: Colour)
        ensures
            c == Colour::spec_blue(),
    {
        Colour { r: 0, g: 0, b: 255, a: 255 }
    }

    pub open spec fn spec_cyan() -> Colour {
        Colour { r: 0, g: 255, b: 255, a: 255 }
    }

    #[verifier::when_used_as_spec(spec_cyan)]
    pub fn cyan() -> (c: Colour)
        ensures
            c == Colour::spec_cyan(),
    {
        Colour { r: 0, g: 255, b: 255, a: 255 }
    }

    pub open spec fn spec_magenta() -> Colour {
        Colour { r: 255, g: 0, b: 255, a: 255 }
    }

    #[verifier::when_used_as_spec(spec_magenta)]
    pub fn magenta() -> (c: Colour)
        ensures
            c == Colour::spec_magenta(),
    {
        Colour { r: 255, g: 0, b: 255, a: 255 }
    }

    pub open spec fn spec_yellow() -> Colour {
        Colour { r: 255, g: 255, b: 0, a: 255 }
    }

    #[verifier::when_used_as_spec(spec_yellow)]
    pub fn yellow() -> (c: Colour)
        ensures
            c == Colour::spec_yellow(),
    {
        Colour { r: 255, g: 255, b: 0, a: 255 }
    }


    /// The four channels as an array, red first.
    pub fn to_array(self) -> (out: [u8; 4])
        ensures
            out@ == self.channels(),
    {
        [self.r, self.g, self.b, self.a]
    }
}

impl Default for Colour {
    /// Opaque white.
    fn default() -> (c: Colour)
        ensures
            c == Colour::spec_white(),
    {
        Colour { r: 255, g: 255, b: 255, a: 255 }
    }
}

} // verus!
