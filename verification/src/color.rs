//! Colours as they travel through the draw pipeline.
//!
//! Every channel is the IEEE-754 binary32 bit pattern of a linear value in
//! `0..=1`. The library never does arithmetic on a channel; it only carries
//! the word from the draw call to the packed instance.

use vstd::prelude::*;

verus! {

/// The bit pattern of `1.0`.
pub const ONE: u32 = 0x3F80_0000;

/// The bit pattern of `0.0`.
pub const ZERO: u32 = 0;

/// An RGBA colour, one binary32 bit pattern per channel.
#[derive(Clone, Copy, Debug, PartialEq, Eq)]
pub struct Color {
    pub r: u32,
    pub g: u32,
    pub b: u32,
    pub a: u32,
}

impl Color {
    /// Opaque white: every channel is `1.0`.
    pub open spec fn spec_white() -> Color {
        Color { r: ONE, g: ONE, b: ONE, a: ONE }
    }

    /// The channels in the order in which they are packed: red, green, blue,
    /// alpha.
    pub open spec fn channels(self) -> Seq<u32> {
        seq![self.r, self.g, self.b, self.a]
    }

    /// Opaque white, the tint of a sprite drawn without one.
    #[verifier::when_used_as_spec(spec_white)]
    pub fn white() -> (color: Color)
        ensures
            color == Self::spec_white(),
    {
        Color { r: ONE, g: ONE, b: ONE, a: ONE }
    }

    /// An opaque colour from its red, green and blue channels.
    pub fn from_rgb(r: u32, g: u32, b: u32) -> (color: Color)
        ensures
            color == (Color { r, g, b, a: ONE }),
    {
        Self::from_rgba(r, g, b, ONE)
    }

    /// A colour from its four channels.
    pub fn from_rgba(r: u32, g: u32, b: u32, a: u32) -> (color: Color)
        ensures
            color == (Color { r, g, b, a }),
    {
        Color { r, g, b, a }
    }

    /// The four channels as an array, in packing order.
    pub fn as_array(&self) -> (array: [u32; 4])
        ensures
            array@ == self.channels(),
    {
        [self.r, self.g, self.b, self.a]
    }
}

} // verus!
