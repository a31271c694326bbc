//! What a plot makes of its panel: the shape it asks for, the ranges it shows, and
//! where what surrounds the panel goes.

use std::sync::Arc;
use vstd::prelude::*;

use crate::expr::{
    c_not, c_positive, e_add, e_div, e_half, e_int, e_mul, e_panel_h, e_panel_w, e_px, e_select,
    e_sub, holds, points_in_pixels, real_max, value, Env, Expr, Quantity,
};
use crate::laws::data::px;
use crate::laws::projection::{
    angle, angles_are_fractions_of_the_sweep, region_height, region_width,
};
use crate::num::{rank_is_value_order, Num};
use crate::pick::PickId;
use crate::plot::any_geom::AnyGeom;
use crate::plot::aspect::{
    e_target, extent_of, overlay_keeps_the_ratio, widening_stays_in_bounds, AspectMode, Scale,
    ScaleRange,
};
use crate::plot::draw::{
    background_corner, background_steps, baseline_of, inside_strip, margins_px, rect_at,
    PlotBackground,
};
use crate::plot::layout::SlotRect;
use crate::plot::wire::{outward, spoke_direction, title_direction, AxisTitleTheme};
use crate::plot::Plot;
use crate::projection::{PolarProjection, Projection, QUARTER_TURN};
use crate::scene::{Op, Path, Rect, Xform};
use crate::slot::AxisSide;

verus! {

/// Whether a channel is bound to a continuous scale with this range.
pub open spec fn shows_range(
    plot: Plot,
    scales: Map<Seq<char>, Scale>,
    channel: Seq<char>,
    r: ScaleRange,
) -> bool {
    &&& plot.bindings@.contains_key(channel)
    &&& scales.contains_key(plot.bindings@[channel]@)
    &&& scales[plot.bindings@[channel]@] == Scale::Continuous(r)
}

proof fn ranges_in_numbers(r: ScaleRange, env: Env)
    ensures
        value(extent_of(r), env) == r.hi.value() - r.lo.value(),
{
    assert(value(Expr::Lit(r.hi), env) == r.hi.value());
    assert(value(Expr::Lit(r.lo), env) == r.lo.value());
}

/// A panel that keeps a ratio between two scales has the shape in which one unit
/// across is that many times as long as one unit up.
pub proof fn panels_show_ranges_in_proportion(
    plot: Plot,
    scales: Map<Seq<char>, Scale>,
    ratio: Num,
    x: ScaleRange,
    y: ScaleRange,
    env: Env,
)
    requires
        plot.aspect_mode == AspectMode::Panel,
        plot.projection is Cartesian,
        plot.cartesian_aspect_ratio == Some(ratio),
        shows_range(plot, scales, "x"@, x),
        shows_range(plot, scales, "y"@, y),
        x.lo.value() < x.hi.value(),
        y.lo.value() < y.hi.value(),
    ensures
        plot.aspect_wanted(scales) matches Some(a) && value(a.width, env) / (x.hi.value()
            - x.lo.value()) == ratio.value() * (value(a.height, env) / (y.hi.value() - y.lo.value())),
{
    ranges_in_numbers(x, env);
    ranges_in_numbers(y, env);
    let w = extent_of(x);
    assert(value(Expr::Lit(ratio), env) == ratio.value());
    assert(value(e_mul(w, Expr::Lit(ratio)), env) == value(w, env) * ratio.value());
    let a = x.hi.value() - x.lo.value();
    let b = y.hi.value() - y.lo.value();
    let k = ratio.value();
    assert((a * k) / a == k * (b / b)) by (nonlinear_arith)
        requires
            a > 0real,
            b > 0real,
    ;
}

/// A polar panel has the shape of what is fitted into it, or is a square.
pub proof fn polar_panels_have_the_shape_of_their_region(
    plot: Plot,
    scales: Map<Seq<char>, Scale>,
    p: PolarProjection,
    env: Env,
)
    requires
        plot.aspect_mode == AspectMode::Panel,
        plot.projection == Projection::Polar(p),
        p.fit_to_bbox ==> region_height(p, env) != 0real,
    ensures
        plot.aspect_wanted(scales) matches Some(a) && value(a.width, env) / value(a.height, env)
            == (if p.fit_to_bbox {
            region_width(p, env) / region_height(p, env)
        } else {
            1real
        }),
        plot.overlay_wanted(scales) is None,
{
    let b = p.extent();
    assert(value(e_sub(b.max_x, b.min_x), env) == region_width(p, env));
    assert(value(e_sub(b.max_y, b.min_y), env) == region_height(p, env));
    assert(value(e_int(1), env) == 1real) by {
        assert(1real / 1real == 1real);
    }
    assert(1real / 1real == 1real);
}

/// Where the panel takes any shape, the range of one scale is widened until one
/// unit across is as many times as long as one unit up as the ratio says, unless
/// the bounds of its transform stop it first. The other keeps its range.
pub proof fn ranges_give_way_to_keep_the_ratio(
    plot: Plot,
    scales: Map<Seq<char>, Scale>,
    ratio: Num,
    x: ScaleRange,
    y: ScaleRange,
    env: Env,
)
    requires
        plot.aspect_mode == AspectMode::Range,
        plot.projection is Cartesian,
        plot.cartesian_aspect_ratio == Some(ratio),
        shows_range(plot, scales, "x"@, x),
        shows_range(plot, scales, "y"@, y),
        x.bound_lo.value() <= x.lo.value() <= x.hi.value() <= x.bound_hi.value(),
        y.bound_lo.value() <= y.lo.value() <= y.hi.value() <= y.bound_hi.value(),
    ensures
        plot.aspect_wanted(scales) is None,
        plot.overlay_wanted(scales) matches Some(o) && o.x_scale == plot.bindings@["x"@]
            && o.y_scale == plot.bindings@["y"@] && (holds(o.applies, env) ==> ({
            let w = (env.var)(Quantity::PanelX1) - (env.var)(Quantity::PanelX0);
            let h = (env.var)(Quantity::PanelY1) - (env.var)(Quantity::PanelY0);
            let xe = if holds(o.across, env) {
                value(o.x_range.hi, env) - value(o.x_range.lo, env)
            } else {
                x.hi.value() - x.lo.value()
            };
            let ye = if holds(o.across, env) {
                y.hi.value() - y.lo.value()
            } else {
                value(o.y_range.hi, env) - value(o.y_range.lo, env)
            };
            let stopped = if holds(o.across, env) {
                value(o.x_range.lo, env) == x.bound_lo.value() && value(o.x_range.hi, env)
                    == x.bound_hi.value()
            } else {
                value(o.y_range.lo, env) == y.bound_lo.value() && value(o.y_range.hi, env)
                    == y.bound_hi.value()
            };
            stopped || w / xe == ratio.value() * (h / ye)
        })),
{
    let o = plot.overlay_wanted(scales)->0;
    if holds(o.applies, env) {
        ranges_in_numbers(x, env);
        ranges_in_numbers(y, env);
        overlay_keeps_the_ratio(x, y, ratio, env);
        reveal_with_fuel(holds, 6);
        let target = value(e_target(ratio), env);
        let xe = value(extent_of(x), env);
        let ye = value(extent_of(y), env);
        let new_x = e_mul(extent_of(y), e_target(ratio));
        let new_y = e_div(extent_of(x), e_target(ratio));
        assert(value(new_x, env) == ye * target);
        assert(value(new_y, env) == xe / target);
        let w = (env.var)(Quantity::PanelX1) - (env.var)(Quantity::PanelX0);
        let h = (env.var)(Quantity::PanelY1) - (env.var)(Quantity::PanelY0);
        assert(value(Expr::Var(Quantity::PanelX1), env) == (env.var)(Quantity::PanelX1));
        assert(value(Expr::Var(Quantity::PanelX0), env) == (env.var)(Quantity::PanelX0));
        assert(value(Expr::Var(Quantity::PanelY1), env) == (env.var)(Quantity::PanelY1));
        assert(value(Expr::Var(Quantity::PanelY0), env) == (env.var)(Quantity::PanelY0));
        assert(value(e_panel_w(), env) == w && value(e_panel_h(), env) == h);
        assert(value(e_int(0), env) == 0real) by {
            assert(0real / 1real == 0real);
        }
        let k = ratio.value();
        assert(value(Expr::Lit(ratio), env) == k);
        assert(value(e_mul(e_panel_h(), Expr::Lit(ratio)), env) == h * k);
        assert(target == w / (h * k));
        assert(w > 0real && h > 0real && k > 0real && xe > 0real && ye > 0real);
        assert(h * k > 0real) by (nonlinear_arith)
            requires
                h > 0real,
                k > 0real,
        ;
        let m = h * k;
        assert(target * m == w) by (nonlinear_arith)
            requires
                target == w / m,
                m > 0real,
        ;
        if holds(o.across, env) {
            widening_stays_in_bounds(x, new_x, env);
            let nx = ye * target;
            assert(nx > 0real) by (nonlinear_arith)
                requires
                    nx == ye * target,
                    ye > 0real,
                    target > 0real,
            ;
            assert(w / nx == k * (h / ye)) by (nonlinear_arith)
                requires
                    nx == ye * target,
                    nx > 0real,
                    ye > 0real,
                    target > 0real,
                    target * m == w,
                    m == h * k,
            ;
        } else {
            widening_stays_in_bounds(y, new_y, env);
            let ny = xe / target;
            assert(ny > 0real && ny * target == xe) by (nonlinear_arith)
                requires
                    ny == xe / target,
                    xe > 0real,
                    target > 0real,
            ;
            assert(w / xe == k * (h / ny)) by (nonlinear_arith)
                requires
                    ny * target == xe,
                    ny > 0real,
                    xe > 0real,
                    target > 0real,
                    target * m == w,
                    m == h * k,
            ;
        }
    }
}

/// A title in the panel lies along the edge of its side, from corner to corner,
/// and is as thick as the text and its margins together. It reads upwards on the
/// left and downwards on the right.
pub proof fn titles_lie_along_their_edge(side: AxisSide, panel: SlotRect, t: AxisTitleTheme, env: Env)
    ensures
        ({
            let r = inside_strip(side, panel, t);
            let high = (env.var)(Quantity::TextHeight) + px(
                t.margin_top.value() + t.margin_bottom.value(),
                env,
            );
            let wide = (env.var)(Quantity::TextWidth) + px(
                t.margin_left.value() + t.margin_right.value(),
                env,
            );
            let x0 = value(r.x0, env);
            let x1 = value(r.x1, env);
            let y0 = value(r.y0, env);
            let y1 = value(r.y1, env);
            match side {
                AxisSide::Top => x0 == panel.x0.value() && x1 == panel.x1.value() && y0
                    == panel.y0.value() && y1 - y0 == high && baseline_of(side) == 0,
                AxisSide::Bottom => x0 == panel.x0.value() && x1 == panel.x1.value() && y1
                    == panel.y1.value() && y1 - y0 == high && baseline_of(side) == 0,
                AxisSide::Left => y0 == panel.y0.value() && y1 == panel.y1.value() && x0
                    == panel.x0.value() && x1 - x0 == wide && baseline_of(side) == -90,
                AxisSide::Right => y0 == panel.y0.value() && y1 == panel.y1.value() && x1
                    == panel.x1.value() && x1 - x0 == wide && baseline_of(side) == 90,
            }
        }),
{
    margins_in_pixels(t.margin_top, t.margin_bottom, env);
    margins_in_pixels(t.margin_left, t.margin_right, env);
    let tall = Expr::Var(Quantity::TextHeight);
    let broad = Expr::Var(Quantity::TextWidth);
    assert(value(tall, env) == (env.var)(Quantity::TextHeight));
    assert(value(broad, env) == (env.var)(Quantity::TextWidth));
    let h = e_add(tall, margins_px(t.margin_top, t.margin_bottom));
    let w = e_add(broad, margins_px(t.margin_left, t.margin_right));
    assert(value(h, env) == value(tall, env) + value(
        margins_px(t.margin_top, t.margin_bottom),
        env,
    ));
    assert(value(w, env) == value(broad, env) + value(
        margins_px(t.margin_left, t.margin_right),
        env,
    ));
    let r = rect_at(panel);
    assert(value(r.x0, env) == panel.x0.value() && value(r.x1, env) == panel.x1.value());
    assert(value(r.y0, env) == panel.y0.value() && value(r.y1, env) == panel.y1.value());
    assert(value(e_sub(r.y1, h), env) == value(r.y1, env) - value(h, env));
    assert(value(e_add(r.y0, h), env) == value(r.y0, env) + value(h, env));
    assert(value(e_sub(r.x1, w), env) == value(r.x1, env) - value(w, env));
    assert(value(e_add(r.x0, w), env) == value(r.x0, env) + value(w, env));
}

proof fn margins_in_pixels(a: Num, b: Num, env: Env)
    ensures
        value(margins_px(a, b), env) == px(a.value() + b.value(), env),
{
    let sum = e_add(Expr::Lit(a), Expr::Lit(b));
    assert(value(Expr::Lit(a), env) == a.value() && value(Expr::Lit(b), env) == b.value());
    assert(value(sum, env) == a.value() + b.value());
    let dpi = Expr::Var(Quantity::Dpi);
    assert(value(dpi, env) == (env.var)(Quantity::Dpi));
    assert(value(e_int(72), env) == 72real) by {
        assert(72real / 1real == 72real);
    }
    let scale = e_div(dpi, e_int(72));
    assert(value(scale, env) == value(dpi, env) / 72real);
    assert(value(e_mul(sum, scale), env) == value(sum, env) * value(scale, env));
    let s = a.value() + b.value();
    let d = (env.var)(Quantity::Dpi);
    assert(s * (d / 72real) == s * d / 72real) by (nonlinear_arith);
}

/// Whether a rectangle is one of the layout.
pub open spec fn is_rect_of(r: Rect, s: SlotRect, env: Env) -> bool {
    &&& value(r.x0, env) == s.x0.value()
    &&& value(r.y0, env) == s.y0.value()
    &&& value(r.x1, env) == s.x1.value()
    &&& value(r.y1, env) == s.y1.value()
}

/// Whether a path is the outline of a background: its rectangle, with round
/// corners if they are to be rounded.
pub open spec fn is_outline(path: Path, b: PlotBackground, s: SlotRect, env: Env) -> bool {
    match path {
        Path::RoundedRect(r, corner) => is_rect_of(r, s, env) && value(corner, env) == px(
            b.corner_radius_pt.value(),
            env,
        ) && value(corner, env) > 0real,
        Path::Rect(r) => is_rect_of(r, s, env) && px(b.corner_radius_pt.value(), env) <= 0real,
        _ => false,
    }
}

/// A background is drawn over the whole of its rectangle and nothing else, in its
/// own colour, and then its border, as wide as it was told to be. Hits pass
/// through both.
pub proof fn backgrounds_cover_their_rectangle(b: PlotBackground, s: SlotRect, k: int, env: Env)
    requires
        0 <= k < background_steps(b, s).len(),
        holds(background_steps(b, s)[k].when, env),
    ensures
        match background_steps(b, s)[k].op {
            Op::Fill { path, xform, paint, pick } => {
                &&& is_outline(path, b, s, env)
                &&& xform == Xform::Identity
                &&& b.fill == Some(paint.color) && paint.opacity is None
                &&& pick == PickId::Skip
            },
            Op::Stroke { path, pen, xform, paint, pick } => {
                &&& is_outline(path, b, s, env)
                &&& xform == Xform::Identity
                &&& b.linewidth_pt.above_zero()
                &&& b.color == paint.color && paint.opacity is None
                &&& value(pen.width, env) == px(b.linewidth_pt.value(), env)
                &&& pen.pattern is None
                &&& pick == PickId::Skip
            },
            _ => false,
        },
{
    let corner = background_corner(b);
    let raw = e_px(Expr::Lit(b.corner_radius_pt));
    points_in_pixels(Expr::Lit(b.corner_radius_pt), env);
    points_in_pixels(Expr::Lit(b.linewidth_pt), env);
    assert(value(Expr::Lit(b.corner_radius_pt), env) == b.corner_radius_pt.value());
    assert(value(Expr::Lit(b.linewidth_pt), env) == b.linewidth_pt.value());
    assert(value(e_int(0), env) == 0real) by {
        assert(0real / 1real == 0real);
    }
    assert(value(corner, env) == real_max(value(raw, env), 0real));
    let round = c_positive(corner);
    assert(holds(round, env) == (value(corner, env) > 0real));
    assert(holds(c_not(round), env) == !holds(round, env));
    let r = rect_at(s);
    assert(value(r.x0, env) == s.x0.value() && value(r.x1, env) == s.x1.value());
    assert(value(r.y0, env) == s.y0.value() && value(r.y1, env) == s.y1.value());
}

/// A background is filled once where it has a fill, and then bordered once where
/// its border has any width.
pub proof fn backgrounds_are_drawn_once(b: PlotBackground, s: SlotRect, env: Env)
    ensures
        ({
            let all = background_steps(b, s);
            let fills: int = if b.fill is Some {
                2
            } else {
                0
            };
            let borders: int = if b.linewidth_pt.above_zero() {
                2
            } else {
                0
            };
            &&& all.len() == fills + borders
            &&& forall|k: int|
                #![trigger all[k]]
                0 <= k < all.len() ==> (if k < fills {
                    all[k].op is Fill
                } else {
                    all[k].op is Stroke
                })
            &&& forall|k: int|
                #![trigger all[2 * k]]
                0 <= 2 * k < all.len() ==> holds(all[2 * k].when, env) != holds(
                    all[2 * k + 1].when,
                    env,
                )
        }),
{
    let round = c_positive(background_corner(b));
    assert(holds(c_not(round), env) == !holds(round, env));
    let all = background_steps(b, s);
    assert forall|k: int|
        #![trigger all[2 * k]]
        0 <= 2 * k < all.len() implies holds(all[2 * k].when, env) != holds(
        all[2 * k + 1].when,
        env,
    ) by {
        assert(k == 0 || k == 1);
    }
}

/// Labels round a ring lie outward from their break. Those along a spoke lie
/// across it, on the side that the sweep comes from. The title of a ring lies
/// outward from the middle of the sweep, and above a full circle.
pub proof fn labels_lie_off_the_sweep(p: PolarProjection, f: Num, env: Env)
    requires
        p.theta_start.finite(),
        p.theta_end.finite(),
    ensures
        ({
            let theta = angle(p, f.value());
            let ring = outward(p.theta_at(Expr::Lit(f)));
            let spoke = spoke_direction(p, f);
            let title = title_direction(p);
            let middle = if holds(p.c_full_circle(), env) {
                (Num { bits: QUARTER_TURN }).value()
            } else {
                (p.theta_start.value() + p.theta_end.value()) / 2real
            };
            let back = if p.theta_start.value() < p.theta_end.value() {
                1real
            } else {
                0real - 1real
            };
            &&& value(ring.x, env) == (env.cos)(theta)
            &&& value(ring.y, env) == 0real - (env.sin)(theta)
            &&& value(spoke.x, env) == back * (env.sin)(theta)
            &&& value(spoke.y, env) == back * (env.cos)(theta)
            &&& value(spoke.x, env) * value(ring.x, env) + value(spoke.y, env) * value(ring.y, env)
                == 0real
            &&& value(title.x, env) == (env.cos)(middle)
            &&& value(title.y, env) == 0real - (env.sin)(middle)
        }),
{
    let e = p.theta_at(Expr::Lit(f));
    let theta = angle(p, f.value());
    angles_are_fractions_of_the_sweep(p, Expr::Lit(f), env);
    assert(value(Expr::Lit(f), env) == f.value());
    assert(value(e, env) == theta);
    let si = Expr::Sin(Arc::new(e));
    let co = Expr::Cos(Arc::new(e));
    assert(value(si, env) == (env.sin)(theta) && value(co, env) == (env.cos)(theta));
    rank_is_value_order(p.theta_start, p.theta_end);
    assert(value(e_int(1), env) == 1real) by {
        assert(1real / 1real == 1real);
    }
    let minus = Expr::Ratio((-1int) as i64, 1);
    assert(value(minus, env) == 0real - 1real) by {
        assert((0real - 1real) / 1real == 0real - 1real);
    }
    let sign = if p.theta_start.less(p.theta_end) {
        e_int(1)
    } else {
        minus
    };
    let k = value(sign, env);
    assert(value(e_mul(sign, si), env) == k * value(si, env));
    assert(value(e_mul(sign, co), env) == k * value(co, env));
    let s = (env.sin)(theta);
    let c = (env.cos)(theta);
    assert((k * s) * c + (k * c) * (0real - s) == 0real) by (nonlinear_arith);
    let a = Expr::Lit(p.theta_start);
    let b = Expr::Lit(p.theta_end);
    assert(value(a, env) == p.theta_start.value() && value(b, env) == p.theta_end.value());
    let sum = e_add(a, b);
    let v = value(sum, env);
    assert(v == p.theta_start.value() + p.theta_end.value());
    assert(value(e_half(), env) == 1real / 2real);
    let mean = e_mul(sum, e_half());
    assert(value(mean, env) == v * (1real / 2real));
    assert(v * (1real / 2real) == v / 2real) by (nonlinear_arith);
    let quarter = Expr::Lit(Num { bits: QUARTER_TURN });
    assert(value(quarter, env) == (Num { bits: QUARTER_TURN }).value());
    let m = e_select(p.c_full_circle(), quarter, mean);
    assert(value(Expr::Sin(Arc::new(m)), env) == (env.sin)(value(m, env)));
    assert(value(Expr::Cos(Arc::new(m)), env) == (env.cos)(value(m, env)));
}

/// Where a line or a rectangle ends lies on the scales of where it starts, unless
/// it has scales of its own. No other channel is shown with another's scale.
pub proof fn ends_fall_back_on_starts(
    plot: Plot,
    geom: AnyGeom,
    scales: Map<Seq<char>, Scale>,
    overlaid: Option<Seq<char>>,
    channel: Seq<char>,
)
    ensures
        ({
            let spans = geom is Segment || geom is TextFit;
            let bound = plot.bindings@.contains_key(channel) && (overlaid == Some(
                plot.bindings@[channel]@,
            ) || scales.contains_key(plot.bindings@[channel]@));
            let shown = plot.shown_with(geom, scales, overlaid, channel);
            if spans && !bound && channel == "x2"@ {
                shown == "x"@
            } else if spans && !bound && channel == "y2"@ {
                shown == "y"@
            } else {
                shown == channel
            }
        }),
{
    reveal_strlit("x2");
    reveal_strlit("y2");
    assert("x2"@[0] != "y2"@[0]);
}

} // verus!
