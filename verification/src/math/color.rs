use vstd::prelude::*;

verus! {

/// An opaque colour with 8 bits per channel.
pub struct ColorRGB {
    pub r: u8,
    pub g: u8,
    pub b: u8,
}

/// A colour with 8 bits per channel and an alpha channel.
pub struct ColorRGBA {
    pub r: u8,
    pub g: u8,
    pub b: u8,
    pub a: u8,
}

impl ColorRGB {
    /// Black.
    pub fn new() -> (c: Self)
        ensures
            c.r == 0,
            c.g == 0,
            c.b == 0,
    {
        Self { r: 0, g: 0, b: 0 }
    }

    /// The colour with the given channels.
    pub fn from_rgb(r: u8, g: u8, b: u8) -> (c: Self)
        ensures
            c.r == r,
            c.g == g,
            c.b == b,
    {
        Self { r, g, b }
    }

    /// Unpacks `0xRRGGBBAA`; the lowest byte, the alpha channel, is dropped.
    pub fn from_u32(c: u32) -> (color: Self)
        ensures
            color.r == c / 0x100_0000,
            color.g == (c / 0x1_0000) % 0x100,
            color.b == (c / 0x100) % 0x100,
    {
        assert((c >> 24u32) & 0xff == c / 0x100_0000) by (bit_vector);
        assert((c >> 16u32) & 0xff == (c / 0x1_0000) % 0x100) by (bit_vector);
        assert((c >> 8u32) & 0xff == (c / 0x100) % 0x100) by (bit_vector);
        Self {
            r: ((c >> 24u32) & 0xff) as u8,
            g: ((c >> 16u32) & 0xff) as u8,
            b: ((c >> 8u32) & 0xff) as u8,
        }
    }
}

impl ColorRGBA {
    /// Transparent black.
    pub fn new() -> (c: Self)
        ensures
            c.r == 0,
            c.g == 0,
            c.b == 0,
            c.a == 0,
    {
        Self { r: 0, g: 0, b: 0, a: 0 }
    }

    /// The colour with the given channels.
    pub fn from_rgba(r: u8, g: u8, b: u8, a: u8) -> (c: Self)
        ensures
            c.r == r,
            c.g == g,
            c.b == b,
            c.a == a,
    {
        Self { r, g, b, a }
    }

    /// Unpacks `0xRRGGBBAA`.
    pub fn from_u32(c: u32) -> (color: Self)
        ensures
            color.r == c / 0x100_0000,
            color.g == (c / 0x1_0000) % 0x100,
            color.b == (c / 0x100) % 0x100,
            color.a == c % 0x100,
    {
        assert((c >> 24u32) & 0xff == c / 0x100_0000) by (bit_vector);
        assert((c >> 16u32) & 0xff == (c / 0x1_0000) % 0x100) by (bit_vector);
        assert((c >> 8u32) & 0xff == (c / 0x100) % 0x100) by (bit_vector);
        assert((c >> 0u32) & 0xff == c % 0x100) by (bit_vector);
        assert(c & 0xff == c % 0x100) by (bit_vector);
        assert((c >> 0u32) == c) by (bit_vector);
        Self {
            r: ((c >> 24u32) & 0xff) as u8,
            g: ((c >> 16u32) & 0xff) as u8,
            b: ((c >> 8u32) & 0xff) as u8,
            a: (c & 0xff) as u8,
        }
    }
}

} // verus!
