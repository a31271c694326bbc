//! What labels have in common: how they are set, and what is drawn behind them.

use vstd::prelude::*;

use crate::expr::{
    c_and, c_finite, c_finite_positive, c_ge, c_not, c_positive, e_int, e_max, e_px, e_select, e_sub,
    holds, value, Cond, Env, Expr, Quantity,
};
use crate::geom::rich::{RichKey, RichWidth};
use crate::num::Num;
use crate::pick::PickId;
use crate::scene::{Cap, HAlign, Join, Op, Paint, Path, Pen, Rect, Step, TextStyle, Xform};
use crate::value::Color;

verus! {

/// A label to be shaped before its steps can be drawn.
///
/// Shaped within `wrap` pixels where `wraps` holds, the label's width is that
/// of its widest line and its height that of all its lines. Elsewhere it is
/// shaped on as many lines as it has, at its natural size.
#[derive(Debug)]
pub struct Label {
    /// The row.
    pub row: usize,
    /// The text.
    pub text: String,
    /// How it is set.
    pub style: TextStyle,
    /// Whether the text is markdown.
    pub markdown: bool,
    /// What its glyphs are filled with.
    pub fill: Paint,
    /// The colour of its outline and how wide that is, in points. On markdown
    /// the outline goes onto the style sheet, and a span's own outline wins.
    pub outline: Option<(Color, Num)>,
    /// Where its lines are placed.
    pub align: HAlign,
    /// How wide its lines may be, in pixels.
    pub wrap: Expr,
    /// Whether its lines are broken.
    pub wraps: Cond,
}

/// All that the shape of a label in markdown depends on, at a font size.
pub open spec fn rich_key(
    label: Label,
    size_pt: Num,
    sheet: u64,
    palette: u64,
    images: Option<u64>,
    dpi: Num,
    width: RichWidth,
) -> RichKey {
    RichKey {
        text: label.text,
        style: TextStyle { size_pt, ..label.style },
        fill: label.fill,
        sheet,
        outline: label.outline,
        palette,
        images,
        dpi,
        width,
        align: label.align,
    }
}

impl Label {
    /// All that the shape of the label in markdown depends on, at a font size.
    pub fn rich_key(
        &self,
        size_pt: Num,
        sheet: u64,
        palette: u64,
        images: Option<u64>,
        dpi: Num,
        width: RichWidth,
    ) -> (r: RichKey)
        ensures
            r == rich_key(*self, size_pt, sheet, palette, images, dpi, width),
    {
        let family = match &self.style.family {
            Some(f) => Some(f.clone()),
            None => None,
        };
        let style = TextStyle {
            size_pt,
            weight: self.style.weight,
            italic: self.style.italic,
            spacing: self.style.spacing,
            underline: self.style.underline,
            strikethrough: self.style.strikethrough,
            family,
        };
        RichKey {
            text: self.text.clone(),
            style,
            fill: self.fill,
            sheet,
            outline: self.outline,
            palette,
            images,
            dpi,
            width,
            align: self.align,
        }
    }
}

/// A label and what is drawn for it.
#[derive(Debug)]
pub struct LabelPlan {
    /// The label.
    pub label: Label,
    /// What is drawn, in order.
    pub steps: Vec<Step>,
}

/// What is drawn behind a label.
#[derive(Debug)]
pub struct Backdrop {
    /// Where.
    pub rect: Rect,
    /// What it is filled with.
    pub fill: Option<Paint>,
    /// What it is stroked with.
    pub stroke: Option<Paint>,
    /// How wide the stroke is, in points.
    pub linewidth: Num,
    /// How far its corners are rounded, in points.
    pub corner_radius: Num,
    /// How it is turned.
    pub xform: Xform,
    /// What it hit-tests as.
    pub pick: PickId,
}

/// Whether a rectangle is finite and has room.
pub open spec fn c_rect_open(r: Rect) -> Cond {
    c_and(
        c_and(c_and(c_finite(r.x0), c_finite(r.y0)), c_and(c_finite(r.x1), c_finite(r.y1))),
        c_and(c_positive(e_sub(r.x1, r.x0)), c_positive(e_sub(r.y1, r.y0))),
    )
}

/// How far the corners of a backdrop are rounded, in pixels.
pub open spec fn corner_px(radius: Num) -> Expr {
    e_max(e_px(Expr::Lit(radius)), e_int(0))
}

/// The pen of a backdrop.
pub open spec fn backdrop_pen(linewidth: Num) -> Pen {
    Pen {
        width: e_px(Expr::Lit(linewidth)),
        cap: Cap::Butt,
        join: Join::Miter,
        pattern: None,
        dash_offset: e_int(0),
    }
}

/// The steps that fill a backdrop: with round corners where they are rounded,
/// else without.
pub open spec fn backdrop_fill(b: Backdrop, when: Cond) -> Seq<Step> {
    match b.fill {
        Some(paint) => seq![
            Step {
                when: c_and(when, c_positive(corner_px(b.corner_radius))),
                op: Op::Fill {
                    path: Path::RoundedRect(b.rect, corner_px(b.corner_radius)),
                    xform: b.xform,
                    paint,
                    pick: b.pick,
                },
            },
            Step {
                when: c_and(when, c_not(c_positive(corner_px(b.corner_radius)))),
                op: Op::Fill { path: Path::Rect(b.rect), xform: b.xform, paint, pick: b.pick },
            },
        ],
        None => Seq::empty(),
    }
}

/// The steps that stroke a backdrop, where its line has any width.
pub open spec fn backdrop_stroke(b: Backdrop, when: Cond) -> Seq<Step> {
    match b.stroke {
        Some(paint) => {
            let pen = backdrop_pen(b.linewidth);
            let stroked = c_and(when, c_finite_positive(pen.width));
            seq![
                Step {
                    when: c_and(stroked, c_positive(corner_px(b.corner_radius))),
                    op: Op::Stroke {
                        path: Path::RoundedRect(b.rect, corner_px(b.corner_radius)),
                        pen,
                        xform: b.xform,
                        paint,
                        pick: b.pick,
                    },
                },
                Step {
                    when: c_and(stroked, c_not(c_positive(corner_px(b.corner_radius)))),
                    op: Op::Stroke {
                        path: Path::Rect(b.rect),
                        pen,
                        xform: b.xform,
                        paint,
                        pick: b.pick,
                    },
                },
            ]
        },
        None => Seq::empty(),
    }
}

/// What is drawn for a backdrop where `when` holds: its fill, then its stroke.
pub open spec fn backdrop_steps(b: Backdrop, when: Cond) -> Seq<Step> {
    let open = c_and(when, c_rect_open(b.rect));
    backdrop_fill(b, open) + backdrop_stroke(b, open)
}

/// The condition that a rectangle is finite and has room.
pub fn rect_is_open(r: &Rect) -> (c: Cond)
    ensures
        c == c_rect_open(*r),
{
    let corners = r.x0.is_finite().and(r.y0.is_finite()).and(
        r.x1.is_finite().and(r.y1.is_finite()),
    );
    let w = r.x1.again().minus(r.x0.again());
    let h = r.y1.again().minus(r.y0.again());
    corners.and(w.is_positive().and(h.is_positive()))
}

/// Appends what is drawn for a backdrop where `when` holds.
pub fn draw_backdrop(b: Backdrop, when: &Cond, out: &mut Vec<Step>)
    ensures
        final(out)@ == old(out)@ + backdrop_steps(b, *when),
{
    let ghost before = out@;
    let ghost whole = b;
    let open = when.again().and(rect_is_open(&b.rect));
    let corner = Expr::Lit(b.corner_radius).in_px().at_least(Expr::Ratio(0, 1));
    let rounded = corner.is_positive();
    if let Some(paint) = b.fill {
        out.push(
            Step {
                when: open.again().and(rounded.again()),
                op: Op::Fill {
                    path: Path::RoundedRect(b.rect.again(), corner.again()),
                    xform: b.xform.again(),
                    paint,
                    pick: b.pick,
                },
            },
        );
        out.push(
            Step {
                when: open.again().and(rounded.again().negated()),
                op: Op::Fill {
                    path: Path::Rect(b.rect.again()),
                    xform: b.xform.again(),
                    paint,
                    pick: b.pick,
                },
            },
        );
    }
    assert(out@ =~= before + backdrop_fill(whole, open));
    let ghost filled = out@;
    if let Some(paint) = b.stroke {
        let pen = Pen {
            width: Expr::Lit(b.linewidth).in_px(),
            cap: Cap::Butt,
            join: Join::Miter,
            pattern: None,
            dash_offset: Expr::Ratio(0, 1),
        };
        let stroked = open.again().and(pen.width.is_finite_positive());
        out.push(
            Step {
                when: stroked.again().and(rounded.again()),
                op: Op::Stroke {
                    path: Path::RoundedRect(b.rect.again(), corner),
                    pen: pen.again(),
                    xform: b.xform.again(),
                    paint,
                    pick: b.pick,
                },
            },
        );
        out.push(
            Step {
                when: stroked.and(rounded.negated()),
                op: Op::Stroke {
                    path: Path::Rect(b.rect),
                    pen,
                    xform: b.xform,
                    paint,
                    pick: b.pick,
                },
            },
        );
    }
    assert(out@ =~= filled + backdrop_stroke(whole, open));
    assert(out@ =~= before + backdrop_steps(whole, *when));
}

/// The padding above a label with a backdrop: at least as much as the last line
/// reaches below its baseline, so that the glyphs look centred.
pub open spec fn top_padding(padding: Expr, descent: Expr) -> Expr {
    e_max(padding, descent)
}

/// The padding below a label with a backdrop: as much as above, but none where
/// the padding is less than the descent.
pub open spec fn bottom_padding(padding: Expr, descent: Expr) -> Expr {
    e_select(c_ge(padding, descent), padding, e_int(0))
}

/// The padding below a fitted label with a backdrop: the padding without the
/// descent.
pub open spec fn fitted_bottom_padding(padding: Expr, descent: Expr) -> Expr {
    e_max(e_sub(padding, descent), e_int(0))
}

/// The padding above a label and the padding below it.
pub fn paddings(padding: &Expr) -> (r: (Expr, Expr))
    ensures
        r.0 == top_padding(*padding, Expr::Var(Quantity::TextDescent)),
        r.1 == bottom_padding(*padding, Expr::Var(Quantity::TextDescent)),
{
    let top = padding.again().at_least(Expr::Var(Quantity::TextDescent));
    let covers = Cond::ge(padding.again(), Expr::Var(Quantity::TextDescent));
    let bottom = Expr::select(covers, padding.again(), Expr::Ratio(0, 1));
    (top, bottom)
}

/// The padding above a fitted label and the padding below it.
pub fn fitted_paddings(padding: &Expr) -> (r: (Expr, Expr))
    ensures
        r.0 == top_padding(*padding, Expr::Var(Quantity::TextDescent)),
        r.1 == fitted_bottom_padding(*padding, Expr::Var(Quantity::TextDescent)),
{
    let top = padding.again().at_least(Expr::Var(Quantity::TextDescent));
    let bottom = padding.again().minus(Expr::Var(Quantity::TextDescent)).at_least(
        Expr::Ratio(0, 1),
    );
    (top, bottom)
}

/// Padding that is no less than the descent is left as it is, above and below,
/// and all in all there is twice as much of it. Less padding gives way to the
/// descent above, and to nothing below.
pub proof fn padding_covers_descent(padding: Expr, descent: Expr, env: Env)
    ensures
        ({
            let p = value(padding, env);
            let d = value(descent, env);
            let top = value(top_padding(padding, descent), env);
            let bottom = value(bottom_padding(padding, descent), env);
            &&& top >= d && top >= p
            &&& p >= d ==> top == p && bottom == p && top + bottom == 2real * p
            &&& p < d ==> top == d && bottom == 0real
        }),
{
    assert(value(e_int(0), env) == 0real) by {
        assert(0real / 1real == 0real);
    }
    assert(holds(c_ge(padding, descent), env) == (value(padding, env) >= value(descent, env)));
}

/// Of the padding round a fitted label, the descent is taken from below. Less
/// padding than the descent gives way to the descent above, and to nothing below.
pub proof fn fitted_padding_covers_descent(padding: Expr, descent: Expr, env: Env)
    ensures
        ({
            let p = value(padding, env);
            let d = value(descent, env);
            let top = value(top_padding(padding, descent), env);
            let bottom = value(fitted_bottom_padding(padding, descent), env);
            &&& top >= d && top >= p
            &&& p >= d ==> top == p && bottom == p - d && top + bottom == 2real * p - d
            &&& p < d ==> top == d && bottom == 0real
        }),
{
    assert(value(e_int(0), env) == 0real) by {
        assert(0real / 1real == 0real);
    }
    assert(value(e_sub(padding, descent), env) == value(padding, env) - value(descent, env));
}

} // verus!
