//! Style values for shapes and text: colour, font, fill mode.
//!
//! Styles are immutable, cheaply copyable values; the drawing core never
//! looks beyond the red/green/blue/alpha channels of a colour and the
//! name and size of a font.
use vstd::prelude::*;

verus! {

use crate::bytes::clone_bytes;

/// A colour: red, green and blue channels plus an alpha channel,
/// each in `0..=255`; alpha `255` is fully opaque.
#[derive(Clone, Copy, PartialEq, Eq, Structural, Debug)]
pub struct RgbaColor {
    pub r: u8,
    pub g: u8,
    pub b: u8,
    pub alpha: u8,
}

impl RgbaColor {
    /// An opaque colour from its three channels.
    pub fn rgb(r: u8, g: u8, b: u8) -> (c: RgbaColor)
        ensures
            c == (RgbaColor { r, g, b, alpha: 255u8 }),
    {
        RgbaColor { r, g, b, alpha: 255 }
    }
}

/// A font request: family name (UTF-8 bytes) and pixel size.
#[derive(PartialEq, Eq, Debug)]
pub struct FontDesc {
    pub name: Vec<u8>,
    pub size: u32,
}

impl FontDesc {
    /// A font with the given family name and size.
    pub fn new(name: Vec<u8>, size: u32) -> (f: FontDesc)
        ensures
            f.name == name,
            f.size == size,
    {
        FontDesc { name, size }
    }

    /// The same font family at another size.
    pub fn resize(&self, size: u32) -> (f: FontDesc)
        ensures
            f.name@ == self.name@,
            f.size == size,
    {
        FontDesc { name: clone_bytes(&self.name), size }
    }
}

impl Clone for FontDesc {
    fn clone(&self) -> (r: Self)
        ensures
            r.name@ == self.name@,
            r.size == self.size,
    {
        FontDesc { name: clone_bytes(&self.name), size: self.size }
    }
}

/// Denotes a style of a text
#[derive(PartialEq, Eq, Debug)]
pub struct TextStyle {
    pub font: FontDesc,
    pub color: RgbaColor,
}

impl TextStyle {
    /// A text style over the given font, drawn in black.
    pub fn new(font: FontDesc) -> (r: TextStyle)
        ensures
            r.font == font,
            r.color == (RgbaColor { r: 0u8, g: 0u8, b: 0u8, alpha: 255u8 }),
    {
        TextStyle { font, color: RgbaColor { r: 0, g: 0, b: 0, alpha: 255 } }
    }

    /// Determine the color of the style
    pub fn color(&self, color: RgbaColor) -> (r: TextStyle)
        ensures
            r.font.name@ == self.font.name@,
            r.font.size == self.font.size,
            r.color == color,
    {
        TextStyle { font: self.font.clone(), color }
    }
}

impl Clone for TextStyle {
    fn clone(&self) -> (r: Self)
        ensures
            r.font.name@ == self.font.name@,
            r.font.size == self.font.size,
            r.color == self.color,
    {
        TextStyle { font: self.font.clone(), color: self.color }
    }
}

/// Denotes a style for any of shape
#[derive(Clone, Copy, PartialEq, Eq, Structural, Debug)]
pub struct ShapeStyle {
    pub color: RgbaColor,
    pub filled: bool,
}

impl ShapeStyle {
    /// A stroked (not filled) style in the given colour.
    pub fn new(color: RgbaColor) -> (r: ShapeStyle)
        ensures
            r == (ShapeStyle { color, filled: false }),
    {
        ShapeStyle { color, filled: false }
    }

    /// Make a filled shape style
    pub fn filled(&self) -> (r: ShapeStyle)
        ensures
            r == (ShapeStyle { color: self.color, filled: true }),
    {
        ShapeStyle { color: self.color, filled: true }
    }
}

impl From<FontDesc> for TextStyle {
    /// A font converts to a text style drawn in black.
    fn from(font: FontDesc) -> (r: TextStyle) {
        TextStyle { font, color: RgbaColor { r: 0, g: 0, b: 0, alpha: 255 } }
    }
}

impl vstd::std_specs::convert::FromSpecImpl<FontDesc> for TextStyle {
    open spec fn obeys_from_spec() -> bool {
        true
    }

    open spec fn from_spec(font: FontDesc) -> Self {
        TextStyle { font, color: RgbaColor { r: 0u8, g: 0u8, b: 0u8, alpha: 255u8 } }
    }
}

impl From<RgbaColor> for ShapeStyle {
    /// A colour converts to a stroked style in that colour.
    fn from(color: RgbaColor) -> (r: ShapeStyle) {
        ShapeStyle { color, filled: false }
    }
}

impl vstd::std_specs::convert::FromSpecImpl<RgbaColor> for ShapeStyle {
    open spec fn obeys_from_spec() -> bool {
        true
    }

    open spec fn from_spec(color: RgbaColor) -> Self {
        ShapeStyle { color, filled: false }
    }
}

} // verus!
