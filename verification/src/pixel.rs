//! One picture element after display encoding.
use vstd::prelude::*;

verus! {

/// The red, green and blue channels of one picture element.
#[derive(Copy, Clone, Debug, PartialEq, Eq, Structural)]
pub struct Pixel {
    r: i32,
    g: i32,
    b: i32,
}

impl View for Pixel {
    type V = (int, int, int);

    /// The channels in the order red, green, blue.
    closed spec fn view(&self) -> (int, int, int) {
        (self.r as int, self.g as int, self.b as int)
    }
}

impl Pixel {
    /// Every channel lies between 0 and 255, as display encoding leaves it.
    pub open spec fn displayable(&self) -> bool {
        &&& 0 <= self@.0 <= 255
        &&& 0 <= self@.1 <= 255
        &&& 0 <= self@.2 <= 255
    }

    /// A pixel with the given channels.
    pub fn from(r: i32, g: i32, b: i32) -> (p: Self)
        ensures
            p@ == (r as int, g as int, b as int),
    {
        Self { r, g, b }
    }

    /// The black pixel.
    pub fn new() -> (p: Self)
        ensures
            p@ == (0int, 0int, 0int),
    {
        Self { r: 0, b: 0, g: 0 }
    }

    /// The red channel.
    pub fn r(&self) -> (c: i32)
        ensures
            c == self@.0,
    {
        self.r
    }

    /// The green channel.
    pub fn g(&self) -> (c: i32)
        ensures
            c == self@.1,
    {
        self.g
    }

    /// The blue channel.
    pub fn b(&self) -> (c: i32)
        ensures
            c == self@.2,
    {
        self.b
    }
}

/// A pixel is its three channels: two pixels with the same channels are the
/// same pixel, and every channel is a 32-bit number.
pub proof fn lemma_pixel_is_its_channels(p: Pixel, q: Pixel)
    ensures
        p@ == q@ ==> p == q,
        i32::MIN <= p@.0 <= i32::MAX,
        i32::MIN <= p@.1 <= i32::MAX,
        i32::MIN <= p@.2 <= i32::MAX,
{
}

} // verus!
