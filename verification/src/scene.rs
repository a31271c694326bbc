//! What a geom asks the painter to draw.

use std::sync::Arc;
use vstd::prelude::*;

use crate::expr::{c_and, Cond, Expr};
use crate::num::Num;
use crate::pick::PickId;
use crate::value::{Color, LinetypeStep};

verus! {

/// How a stroke ends.
#[derive(Clone, Copy, Debug, PartialEq, Eq, Structural)]
pub enum Cap {
    /// Flat, at the end.
    Butt,
    /// Round, past the end.
    Round,
    /// Flat, past the end.
    Square,
}

/// How a stroke turns a corner.
#[derive(Clone, Copy, Debug, PartialEq, Eq, Structural)]
pub enum Join {
    /// To a point.
    Miter,
    /// Round.
    Round,
    /// Cut off.
    Bevel,
}

/// How lines are placed within a box.
#[derive(Clone, Copy, Debug, PartialEq, Eq, Structural)]
pub enum HAlign {
    /// At the start.
    Start,
    /// In the middle.
    Center,
    /// At the end.
    End,
    /// From start to end.
    Justify,
}

/// A colour to draw with. An opacity replaces the colour's own alpha.
#[derive(Clone, Copy, Debug, PartialEq, Eq, Structural)]
pub struct Paint {
    /// The colour.
    pub color: Color,
    /// What replaces its alpha.
    pub opacity: Option<Num>,
}

/// A point, in pixels.
#[derive(Debug)]
pub struct Point {
    /// Across.
    pub x: Expr,
    /// Down.
    pub y: Expr,
}

/// A rectangle, in pixels.
#[derive(Debug)]
pub struct Rect {
    /// The left edge.
    pub x0: Expr,
    /// The top edge.
    pub y0: Expr,
    /// The right edge.
    pub x1: Expr,
    /// The bottom edge.
    pub y1: Expr,
}

/// A shape.
#[derive(Debug)]
pub enum Path {
    /// A slice of a disk.
    Wedge {
        /// The disk's centre.
        centre: Point,
        /// The disk's radius.
        radius: Expr,
        /// Where the slice starts.
        start: Expr,
        /// How far it goes round.
        sweep: Expr,
    },
    /// A slice of a ring.
    AnnularWedge {
        /// The ring's centre.
        centre: Point,
        /// The ring's inner radius.
        inner: Expr,
        /// The ring's outer radius.
        outer: Expr,
        /// Where the slice starts.
        start: Expr,
        /// How far it goes round.
        sweep: Expr,
    },
    /// A rectangle.
    Rect(Rect),
    /// A rectangle with round corners.
    RoundedRect(Rect, Expr),
}

/// How something is turned before it is drawn.
#[derive(Debug)]
pub enum Xform {
    /// Not at all.
    Identity,
    /// By an angle about a point.
    RotateAbout {
        /// The angle.
        angle: Expr,
        /// The point.
        at: Point,
    },
}

/// What a stroke is drawn with.
#[derive(Debug)]
pub struct Pen {
    /// How wide, in pixels.
    pub width: Expr,
    /// How it ends.
    pub cap: Cap,
    /// How it turns a corner.
    pub join: Join,
    /// Its pattern, in points; none for a solid line.
    pub pattern: Option<Arc<Vec<LinetypeStep>>>,
    /// Where in the pattern it starts, in pixels.
    pub dash_offset: Expr,
}

/// How far apart letters stand.
#[derive(Clone, Copy, Debug, PartialEq, Eq, Structural)]
pub enum Spacing {
    /// By this many points more.
    Points(Num),
    /// By this many thousandths of the font size more.
    Tracking(Num),
}

/// How a label is set.
#[derive(Debug)]
pub struct TextStyle {
    /// The font size, in points.
    pub size_pt: Num,
    /// The font weight.
    pub weight: u16,
    /// Whether the font is italic.
    pub italic: bool,
    /// How far apart letters stand.
    pub spacing: Spacing,
    /// Whether the label is underlined.
    pub underline: bool,
    /// Whether the label is struck through.
    pub strikethrough: bool,
    /// The font family; the system's where there is none.
    pub family: Option<String>,
}

/// One thing to draw.
#[derive(Debug)]
pub enum Op {
    /// A filled shape.
    Fill {
        /// The shape.
        path: Path,
        /// How it is turned.
        xform: Xform,
        /// What it is filled with.
        paint: Paint,
        /// What it hit-tests as.
        pick: PickId,
    },
    /// A stroked shape.
    Stroke {
        /// The shape.
        path: Path,
        /// What it is stroked with.
        pen: Pen,
        /// How it is turned.
        xform: Xform,
        /// The stroke's colour.
        paint: Paint,
        /// What it hit-tests as.
        pick: PickId,
    },
    /// The glyphs of the label.
    Text {
        /// The top left corner of the label's box.
        at: Point,
        /// How it is turned.
        xform: Xform,
        /// What the glyphs are filled with.
        paint: Paint,
        /// What they hit-test as.
        pick: PickId,
    },
    /// The outlines of the label's glyphs, which hits pass through.
    TextOutline {
        /// The top left corner of the label's box.
        at: Point,
        /// How it is turned.
        xform: Xform,
        /// The outline's colour.
        paint: Paint,
        /// How wide the outline is, in pixels.
        width: Expr,
    },
    /// The label as styled text.
    RichText {
        /// The top left corner of the label's box.
        at: Point,
        /// How it is turned, in panel space.
        xform: Xform,
        /// What it hit-tests as.
        pick: PickId,
    },
    /// From here on, nothing shows outside a shape.
    PushClip {
        /// The shape.
        path: Path,
        /// How it is turned, with all that is drawn until it is undone.
        xform: Xform,
    },
    /// Undoes the last clip.
    PopLayer,
}

/// One thing to draw, where a condition holds.
#[derive(Debug)]
pub struct Step {
    /// The condition.
    pub when: Cond,
    /// The thing.
    pub op: Op,
}

impl Point {
    /// The same point again.
    pub fn again(&self) -> (r: Point)
        ensures
            r == *self,
    {
        Point { x: self.x.again(), y: self.y.again() }
    }
}

impl Rect {
    /// The same rectangle again.
    pub fn again(&self) -> (r: Rect)
        ensures
            r == *self,
    {
        Rect {
            x0: self.x0.again(),
            y0: self.y0.again(),
            x1: self.x1.again(),
            y1: self.y1.again(),
        }
    }
}

impl Xform {
    /// The same turn again.
    pub fn again(&self) -> (r: Xform)
        ensures
            r == *self,
    {
        match self {
            Xform::Identity => Xform::Identity,
            Xform::RotateAbout { angle, at } => Xform::RotateAbout {
                angle: angle.again(),
                at: at.again(),
            },
        }
    }
}

impl Path {
    /// The same shape again.
    pub fn again(&self) -> (r: Path)
        ensures
            r == *self,
    {
        match self {
            Path::Wedge { centre, radius, start, sweep } => Path::Wedge {
                centre: centre.again(),
                radius: radius.again(),
                start: start.again(),
                sweep: sweep.again(),
            },
            Path::AnnularWedge { centre, inner, outer, start, sweep } => Path::AnnularWedge {
                centre: centre.again(),
                inner: inner.again(),
                outer: outer.again(),
                start: start.again(),
                sweep: sweep.again(),
            },
            Path::Rect(r) => Path::Rect(r.again()),
            Path::RoundedRect(r, c) => Path::RoundedRect(r.again(), c.again()),
        }
    }
}

impl Pen {
    /// The same pen again.
    pub fn again(&self) -> (r: Pen)
        ensures
            r == *self,
    {
        Pen {
            width: self.width.again(),
            cap: self.cap,
            join: self.join,
            pattern: match &self.pattern {
                Some(p) => Some(p.clone()),
                None => None,
            },
            dash_offset: self.dash_offset.again(),
        }
    }
}

/// A label in panel space is turned by its angle about a point, counter to the
/// clock as seen; an angle of nought leaves it alone.
pub open spec fn turned(angle: Num, at: Point) -> Xform {
    if angle.bits == 0 || angle.bits == 0x8000_0000_0000_0000 {
        Xform::Identity
    } else {
        Xform::RotateAbout { angle: crate::expr::e_neg(Expr::Lit(angle)), at }
    }
}

/// The turn of something in panel space.
pub fn turn(angle: Num, at: Point) -> (r: Xform)
    ensures
        r == turned(angle, at),
{
    if angle.is_zero() {
        Xform::Identity
    } else {
        Xform::RotateAbout { angle: Expr::Lit(angle).negated(), at }
    }
}

/// How a thing to draw is turned.
pub open spec fn xform_in(op: Op) -> Xform {
    match op {
        Op::Fill { xform, .. } => xform,
        Op::Stroke { xform, .. } => xform,
        Op::Text { xform, .. } => xform,
        Op::TextOutline { xform, .. } => xform,
        Op::RichText { xform, .. } => xform,
        Op::PushClip { xform, .. } => xform,
        Op::PopLayer => Xform::Identity,
    }
}

/// A thing to draw, turned otherwise.
pub open spec fn with_xform(op: Op, xform: Xform) -> Op {
    match op {
        Op::Fill { path, paint, pick, .. } => Op::Fill { path, xform, paint, pick },
        Op::Stroke { path, pen, paint, pick, .. } => Op::Stroke { path, pen, xform, paint, pick },
        Op::Text { at, paint, pick, .. } => Op::Text { at, xform, paint, pick },
        Op::TextOutline { at, paint, width, .. } => Op::TextOutline { at, xform, paint, width },
        Op::RichText { at, pick, .. } => Op::RichText { at, xform, pick },
        Op::PushClip { path, .. } => Op::PushClip { path, xform },
        Op::PopLayer => Op::PopLayer,
    }
}

} // verus!
