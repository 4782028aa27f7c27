//! The description of a text block: its runs, rectangle, alignment and decorations.

use vstd::prelude::*;

use crate::color::Color;
use crate::geometry::Rect;

verus! {

/// Horizontal alignment of the text within its rectangle.
#[derive(Clone, Copy, Debug, PartialEq, Eq, Structural)]
pub enum HAlign {
    Left,
    Center,
    Right,
}

impl Default for HAlign {
    fn default() -> (r: HAlign)
        ensures
            r == HAlign::Left,
    {
        HAlign::Left
    }
}

/// Vertical alignment of the text within its rectangle.
#[derive(Clone, Copy, Debug, PartialEq, Eq, Structural)]
pub enum VAlign {
    Top,
    Center,
    Bottom,
}

impl Default for VAlign {
    fn default() -> (r: VAlign)
        ensures
            r == VAlign::Top,
    {
        VAlign::Top
    }
}

/// A run of text in one font, with an optional color of its own.
#[derive(Clone, Debug)]
pub struct Text {
    /// The name of the font in the catalog.
    pub font: String,
    pub text: String,
    /// Overrides the block's color for this run.
    pub color: Option<Color>,
}

/// A drop shadow, offset by (`x`, `y`) pixels.
#[derive(Clone, Debug)]
pub struct Shadow {
    pub x: u32,
    pub y: u32,
    /// The Gaussian blur's sigma, in thousandths of a pixel.
    pub blur: Option<u32>,
    /// Translucent black when absent.
    pub color: Option<Color>,
}

/// A border drawn inside a block's rectangle.
#[derive(Clone, Debug)]
pub struct BlockBorder {
    pub width: u32,
    pub color: Color,
    /// A shadow cast by the whole bordered rectangle.
    pub shadow: Option<Shadow>,
}

/// The default of a block's `wrap` flag.
pub fn bool_true() -> (r: bool)
    ensures
        r,
{
    true
}

/// A rectangular region of styled text.
#[derive(Clone, Debug)]
pub struct Block {
    /// The smallest font size to try, in points.
    pub min_size: u32,
    /// The font size the search starts from, in points.
    pub max_size: u32,
    pub text: Vec<Text>,
    pub rect: Rect,
    /// A shadow cast by the glyphs.
    pub shadow: Option<Shadow>,
    pub background: Option<Color>,
    pub border: Option<BlockBorder>,
    pub padding: Option<Rect>,
    /// Wrap the text at the rectangle's width.
    pub wrap: bool,
    pub h_align: HAlign,
    pub v_align: VAlign,
    /// The color of runs that have none of their own.
    pub color: Color,
}

} // verus!
