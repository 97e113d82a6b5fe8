//! Colors, converted to and from packed RGB values by the `swf` crate.

use vstd::prelude::*;

verus! {

/// A color with red, green, blue and alpha components.
#[derive(Clone, Copy, Debug, PartialEq, Eq, Structural)]
pub struct Rgba {
    pub r: u8,
    pub g: u8,
    pub b: u8,
    pub a: u8,
}

/// The color whose red, green and blue are the bytes RR, GG and BB of
/// `rgb` = 0xXXRRGGBB, with the alpha `alpha`.
pub open spec fn rgba_of(rgb: u32, alpha: u8) -> Rgba {
    Rgba {
        r: ((rgb / 65536) % 256) as u8,
        g: ((rgb / 256) % 256) as u8,
        b: (rgb % 256) as u8,
        a: alpha,
    }
}

/// The packed value 0x00RRGGBB of a color; the alpha is dropped.
pub open spec fn rgb_value(c: Rgba) -> u32 {
    (c.r as int * 65536 + c.g as int * 256 + c.b as int) as u32
}

/// Relies on `swf::Color::from_rgb`: it takes red, green and blue from the
/// bytes of `rgb` (ordered XXRRGGBB, XX ignored) and the alpha as given.
#[verifier::external_body]
pub(crate) fn color_from_rgb(rgb: u32, alpha: u8) -> (r: Rgba)
    ensures
        r == rgba_of(rgb, alpha),
{
    let c = swf::Color::from_rgb(rgb, alpha);
    Rgba { r: c.r, g: c.g, b: c.b, a: c.a }
}

/// Relies on `swf::Color::to_rgb`: it packs red, green and blue as 0x00RRGGBB
/// and drops the alpha.
#[verifier::external_body]
pub(crate) fn color_to_rgb(c: Rgba) -> (r: u32)
    ensures
        r == rgb_value(c),
{
    swf::Color { r: c.r, g: c.g, b: c.b, a: c.a }.to_rgb()
}

} // verus!
