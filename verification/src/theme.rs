//! What a geom falls back on where a channel says nothing.

use vstd::prelude::*;

use crate::num::Num;
use crate::scene::{Cap, Join};
use crate::value::Color;

verus! {

/// Black, opaque.
pub open spec fn black() -> Color {
    Color { r: 0, g: 0, b: 0, a: 0x3F80_0000 }
}

/// Black, opaque: the colour of text that nothing else colours.
pub fn default_fill() -> (r: Color)
    ensures
        r == black(),
{
    Color { r: 0, g: 0, b: 0, a: 0x3F80_0000 }
}

/// The defaults of a segment.
#[derive(Clone, Copy, Debug)]
pub struct SegmentTheme {
    /// The stroke.
    pub stroke: Option<Color>,
    /// How wide the stroke is, in points.
    pub linewidth_pt: Num,
    /// How the stroke ends.
    pub cap: Cap,
    /// How the stroke turns a corner.
    pub join: Join,
}

/// The defaults of a label.
#[derive(Clone, Copy, Debug)]
pub struct TextTheme {
    /// The font size, in points.
    pub size_pt: Num,
    /// The font weight.
    pub weight: u16,
    /// How far apart letters stand, in points.
    pub letter_spacing_pt: Num,
    /// Whether the label is underlined.
    pub underline: bool,
    /// Whether the label is struck through.
    pub strikethrough: bool,
    /// Whether the label is markdown.
    pub markdown: bool,
    /// The colour.
    pub fill: Option<Color>,
    /// The colour of the outline.
    pub text_stroke: Option<Color>,
    /// How wide the outline is, in points.
    pub text_linewidth_pt: Num,
    /// Where across the label its anchor is.
    pub anchor_x: Num,
    /// Where down the label its anchor is.
    pub anchor_y: Num,
    /// How wide the stroke of the background is, in points.
    pub bg_linewidth_pt: Num,
}

/// The defaults of a label that is fitted into a rectangle.
#[derive(Clone, Copy, Debug)]
pub struct TextFitTheme {
    /// The font weight.
    pub weight: u16,
    /// How far apart letters stand, in thousandths of the font size.
    pub tracking: Num,
    /// Whether the label is underlined.
    pub underline: bool,
    /// Whether the label is struck through.
    pub strikethrough: bool,
    /// The smallest font size, in points.
    pub min_font_pt: Num,
    /// The largest font size, in points.
    pub max_font_pt: Num,
    /// The colour.
    pub fill: Option<Color>,
    /// The colour of the outline.
    pub text_stroke: Option<Color>,
    /// How wide the outline is, in points.
    pub text_linewidth_pt: Num,
    /// How wide the stroke of the background is, in points.
    pub bg_linewidth_pt: Num,
}

/// The defaults of a label along a curve.
#[derive(Clone, Copy, Debug)]
pub struct TextPathTheme {
    /// The font size, in points.
    pub size_pt: Num,
    /// The font weight.
    pub weight: u16,
    /// How far apart letters stand, in thousandths of the font size.
    pub tracking: Num,
    /// Whether the label is underlined.
    pub underline: bool,
    /// Whether the label is struck through.
    pub strikethrough: bool,
    /// Whether the label is markdown.
    pub markdown: bool,
    /// The colour.
    pub fill: Option<Color>,
    /// The colour of the outline.
    pub text_stroke: Option<Color>,
    /// How wide the outline is, in points.
    pub text_linewidth_pt: Num,
}

/// The defaults of a ribbon between two splines.
#[derive(Clone, Copy, Debug)]
pub struct RibbonTheme {
    /// The fill.
    pub fill: Option<Color>,
    /// The stroke of either edge.
    pub stroke: Option<Color>,
    /// How wide the stroke is, in points.
    pub linewidth_pt: Num,
    /// How the stroke ends.
    pub cap: Cap,
    /// How the stroke turns a corner.
    pub join: Join,
}

} // verus!
