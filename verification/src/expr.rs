//! Quantities written down instead of computed.
//!
//! Where something lands on screen depends on numbers that only the painter
//! has: the panel's rectangle, the resolution, how wide a label turned out. The
//! library states every such quantity as an [`Expr`] over those numbers and
//! every condition on them as a [`Cond`]; the painter evaluates them. What an
//! expression means is given over the real numbers by [`value`] and [`holds`].

use std::sync::Arc;
use vstd::prelude::*;

use crate::num::Num;

verus! {

/// A number that the painter supplies.
#[derive(Clone, Copy, Debug, PartialEq, Eq, Structural)]
pub enum Quantity {
    /// The panel's left edge, in pixels.
    PanelX0,
    /// The panel's top edge, in pixels.
    PanelY0,
    /// The panel's right edge, in pixels.
    PanelX1,
    /// The panel's bottom edge, in pixels.
    PanelY1,
    /// Pixels to the inch.
    Dpi,
    /// How wide the shaped label is, in pixels.
    TextWidth,
    /// How tall the shaped label is, in pixels.
    TextHeight,
    /// How far the label's last line reaches below its baseline, in pixels.
    TextDescent,
    /// How far the label reaches above its baseline, in pixels.
    TextAscent,
    /// The length of the curve that a label runs along, in pixels.
    PathLength,
    /// Where the glyph starts, from the label's start.
    GlyphX,
    /// How much of the line the glyph takes up.
    GlyphAdvance,
    /// How far the glyph sits below the label's baseline.
    GlyphDy,
    /// The sampled point of the curve, across.
    SampleX,
    /// The sampled point of the curve, down.
    SampleY,
    /// The direction of the curve at the sampled point, across.
    TangentX,
    /// The direction of the curve at the sampled point, down.
    TangentY,
    /// Where a rule starts, from the label's start.
    RuleX0,
    /// Where a rule ends, from the label's start.
    RuleX1,
    /// How far a rule sits below the label's baseline.
    RuleDy,
    /// How thick a rule is.
    RuleThickness,
    /// How far the marker at the start reaches forward, in units of its size;
    /// nought where there is no such shape.
    StartReach,
    /// How far the marker at the end reaches forward, in units of its size;
    /// nought where there is no such shape.
    EndReach,
}

/// A quantity. Copies share their parts.
#[derive(Debug)]
pub enum Expr {
    /// A number.
    Lit(Num),
    /// An exact fraction.
    Ratio(i64, u64),
    /// A number that the painter supplies.
    Var(Quantity),
    /// Minus.
    Neg(Arc<Expr>),
    /// A sum.
    Add(Arc<Expr>, Arc<Expr>),
    /// A difference.
    Sub(Arc<Expr>, Arc<Expr>),
    /// A product.
    Mul(Arc<Expr>, Arc<Expr>),
    /// A quotient.
    Div(Arc<Expr>, Arc<Expr>),
    /// The smaller one.
    Min(Arc<Expr>, Arc<Expr>),
    /// The larger one.
    Max(Arc<Expr>, Arc<Expr>),
    /// The first, kept between the second and the third.
    Clamp(Arc<Expr>, Arc<Expr>, Arc<Expr>),
    /// Without its sign.
    Abs(Arc<Expr>),
    /// The sine.
    Sin(Arc<Expr>),
    /// The cosine.
    Cos(Arc<Expr>),
    /// The square root.
    Sqrt(Arc<Expr>),
    /// The angle of the point with the first as its ordinate and the second as
    /// its abscissa.
    Atan2(Arc<Expr>, Arc<Expr>),
    /// The second where the condition holds, else the third.
    Select(Arc<Cond>, Arc<Expr>, Arc<Expr>),
}

/// A condition on quantities. Copies share their parts.
#[derive(Debug)]
pub enum Cond {
    /// Always.
    Always,
    /// The quantity came out as a number, neither infinite nor undefined.
    Finite(Arc<Expr>),
    /// The first is larger.
    Gt(Arc<Expr>, Arc<Expr>),
    /// The first is no smaller.
    Ge(Arc<Expr>, Arc<Expr>),
    /// The two are equal.
    Eq(Arc<Expr>, Arc<Expr>),
    /// The condition fails.
    Not(Arc<Cond>),
    /// Both hold.
    And(Arc<Cond>, Arc<Cond>),
    /// One holds.
    Or(Arc<Cond>, Arc<Cond>),
}

/// What the painter brings: its numbers, and the functions that are not
/// arithmetic.
pub struct Env {
    /// The numbers.
    pub var: spec_fn(Quantity) -> real,
    /// The sine.
    pub sin: spec_fn(real) -> real,
    /// The cosine.
    pub cos: spec_fn(real) -> real,
    /// The square root.
    pub sqrt: spec_fn(real) -> real,
    /// The angle of a point.
    pub atan2: spec_fn(real, real) -> real,
}

/// The smaller of two.
pub open spec fn real_min(a: real, b: real) -> real {
    if a <= b {
        a
    } else {
        b
    }
}

/// The larger of two.
pub open spec fn real_max(a: real, b: real) -> real {
    if a >= b {
        a
    } else {
        b
    }
}

/// `x`, kept between `lo` and `hi`.
pub open spec fn real_clamp(x: real, lo: real, hi: real) -> real {
    if x < lo {
        lo
    } else if x > hi {
        hi
    } else {
        x
    }
}

/// What a quantity is.
pub open spec fn value(e: Expr, env: Env) -> real
    decreases e,
{
    match e {
        Expr::Lit(n) => n.value(),
        Expr::Ratio(p, q) => (p as real) / (q as real),
        Expr::Var(v) => (env.var)(v),
        Expr::Neg(a) => 0real - value(*a, env),
        Expr::Add(a, b) => value(*a, env) + value(*b, env),
        Expr::Sub(a, b) => value(*a, env) - value(*b, env),
        Expr::Mul(a, b) => value(*a, env) * value(*b, env),
        Expr::Div(a, b) => value(*a, env) / value(*b, env),
        Expr::Min(a, b) => real_min(value(*a, env), value(*b, env)),
        Expr::Max(a, b) => real_max(value(*a, env), value(*b, env)),
        Expr::Clamp(x, lo, hi) => real_clamp(value(*x, env), value(*lo, env), value(*hi, env)),
        Expr::Abs(a) => if value(*a, env) < 0real {
            0real - value(*a, env)
        } else {
            value(*a, env)
        },
        Expr::Sin(a) => (env.sin)(value(*a, env)),
        Expr::Cos(a) => (env.cos)(value(*a, env)),
        Expr::Sqrt(a) => (env.sqrt)(value(*a, env)),
        Expr::Atan2(y, x) => (env.atan2)(value(*y, env), value(*x, env)),
        Expr::Select(c, a, b) => if holds(*c, env) {
            value(*a, env)
        } else {
            value(*b, env)
        },
    }
}

/// Whether every number that a quantity is made of is finite.
pub open spec fn well_defined(e: Expr, env: Env) -> bool
    decreases e,
{
    match e {
        Expr::Lit(n) => n.finite(),
        Expr::Ratio(p, q) => q != 0,
        Expr::Var(v) => true,
        Expr::Neg(a) => well_defined(*a, env),
        Expr::Add(a, b) => well_defined(*a, env) && well_defined(*b, env),
        Expr::Sub(a, b) => well_defined(*a, env) && well_defined(*b, env),
        Expr::Mul(a, b) => well_defined(*a, env) && well_defined(*b, env),
        Expr::Div(a, b) => well_defined(*a, env) && well_defined(*b, env) && value(*b, env)
            != 0real,
        Expr::Min(a, b) => well_defined(*a, env) && well_defined(*b, env),
        Expr::Max(a, b) => well_defined(*a, env) && well_defined(*b, env),
        Expr::Clamp(x, lo, hi) => well_defined(*x, env) && well_defined(*lo, env) && well_defined(
            *hi,
            env,
        ),
        Expr::Abs(a) => well_defined(*a, env),
        Expr::Sin(a) => well_defined(*a, env),
        Expr::Cos(a) => well_defined(*a, env),
        Expr::Sqrt(a) => well_defined(*a, env) && value(*a, env) >= 0real,
        Expr::Atan2(y, x) => well_defined(*y, env) && well_defined(*x, env),
        Expr::Select(c, a, b) => if holds(*c, env) {
            well_defined(*a, env)
        } else {
            well_defined(*b, env)
        },
    }
}

/// Whether a condition holds.
pub open spec fn holds(c: Cond, env: Env) -> bool
    decreases c,
{
    match c {
        Cond::Always => true,
        Cond::Finite(e) => well_defined(*e, env),
        Cond::Gt(a, b) => value(*a, env) > value(*b, env),
        Cond::Ge(a, b) => value(*a, env) >= value(*b, env),
        Cond::Eq(a, b) => value(*a, env) == value(*b, env),
        Cond::Not(a) => !holds(*a, env),
        Cond::And(a, b) => holds(*a, env) && holds(*b, env),
        Cond::Or(a, b) => holds(*a, env) || holds(*b, env),
    }
}

/// Minus `a`.
pub open spec fn e_neg(a: Expr) -> Expr {
    Expr::Neg(Arc::new(a))
}

/// `a + b`.
pub open spec fn e_add(a: Expr, b: Expr) -> Expr {
    Expr::Add(Arc::new(a), Arc::new(b))
}

/// `a - b`.
pub open spec fn e_sub(a: Expr, b: Expr) -> Expr {
    Expr::Sub(Arc::new(a), Arc::new(b))
}

/// `a * b`.
pub open spec fn e_mul(a: Expr, b: Expr) -> Expr {
    Expr::Mul(Arc::new(a), Arc::new(b))
}

/// `a / b`.
pub open spec fn e_div(a: Expr, b: Expr) -> Expr {
    Expr::Div(Arc::new(a), Arc::new(b))
}

/// The smaller of `a` and `b`.
pub open spec fn e_min(a: Expr, b: Expr) -> Expr {
    Expr::Min(Arc::new(a), Arc::new(b))
}

/// The larger of `a` and `b`.
pub open spec fn e_max(a: Expr, b: Expr) -> Expr {
    Expr::Max(Arc::new(a), Arc::new(b))
}

/// `x`, kept between `lo` and `hi`.
pub open spec fn e_clamp(x: Expr, lo: Expr, hi: Expr) -> Expr {
    Expr::Clamp(Arc::new(x), Arc::new(lo), Arc::new(hi))
}

/// The angle of the point with `y` as its ordinate and `x` as its abscissa.
pub open spec fn e_atan2(y: Expr, x: Expr) -> Expr {
    Expr::Atan2(Arc::new(y), Arc::new(x))
}

/// `a` where `c` holds, else `b`.
pub open spec fn e_select(c: Cond, a: Expr, b: Expr) -> Expr {
    Expr::Select(Arc::new(c), Arc::new(a), Arc::new(b))
}

/// The whole number `n`.
pub open spec fn e_int(n: i64) -> Expr {
    Expr::Ratio(n, 1)
}

/// One half.
pub open spec fn e_half() -> Expr {
    Expr::Ratio(1, 2)
}

/// `e` points, in pixels.
pub open spec fn e_px(e: Expr) -> Expr {
    e_div(e_mul(e, Expr::Var(Quantity::Dpi)), e_int(72))
}

/// How wide the panel is.
pub open spec fn e_panel_w() -> Expr {
    e_sub(Expr::Var(Quantity::PanelX1), Expr::Var(Quantity::PanelX0))
}

/// How tall the panel is.
pub open spec fn e_panel_h() -> Expr {
    e_sub(Expr::Var(Quantity::PanelY1), Expr::Var(Quantity::PanelY0))
}

/// `e` is finite.
pub open spec fn c_finite(e: Expr) -> Cond {
    Cond::Finite(Arc::new(e))
}

/// `a > b`.
pub open spec fn c_gt(a: Expr, b: Expr) -> Cond {
    Cond::Gt(Arc::new(a), Arc::new(b))
}

/// `a >= b`.
pub open spec fn c_ge(a: Expr, b: Expr) -> Cond {
    Cond::Ge(Arc::new(a), Arc::new(b))
}

/// `a == b`.
pub open spec fn c_eq(a: Expr, b: Expr) -> Cond {
    Cond::Eq(Arc::new(a), Arc::new(b))
}

/// Not `c`.
pub open spec fn c_not(c: Cond) -> Cond {
    Cond::Not(Arc::new(c))
}

/// `a` and `b`.
pub open spec fn c_and(a: Cond, b: Cond) -> Cond {
    Cond::And(Arc::new(a), Arc::new(b))
}

/// `a` or `b`.
pub open spec fn c_or(a: Cond, b: Cond) -> Cond {
    Cond::Or(Arc::new(a), Arc::new(b))
}

/// `e > 0`.
pub open spec fn c_positive(e: Expr) -> Cond {
    c_gt(e, e_int(0))
}

/// `e` is finite and above zero.
pub open spec fn c_finite_positive(e: Expr) -> Cond {
    c_and(c_finite(e), c_positive(e))
}

/// `|e| < 1 / q`.
pub open spec fn c_within(e: Expr, q: u64) -> Cond {
    c_gt(Expr::Ratio(1, q), Expr::Abs(Arc::new(e)))
}

/// Whether the panel is neither flat nor turned inside out.
pub open spec fn c_panel_open() -> Cond {
    c_and(c_not(c_ge(e_int(0), e_panel_w())), c_not(c_ge(e_int(0), e_panel_h())))
}

impl Expr {
    /// The same quantity again.
    pub fn again(&self) -> (r: Expr)
        ensures
            r == *self,
    {
        match self {
            Expr::Lit(n) => Expr::Lit(*n),
            Expr::Ratio(p, q) => Expr::Ratio(*p, *q),
            Expr::Var(v) => Expr::Var(*v),
            Expr::Neg(a) => Expr::Neg(a.clone()),
            Expr::Add(a, b) => Expr::Add(a.clone(), b.clone()),
            Expr::Sub(a, b) => Expr::Sub(a.clone(), b.clone()),
            Expr::Mul(a, b) => Expr::Mul(a.clone(), b.clone()),
            Expr::Div(a, b) => Expr::Div(a.clone(), b.clone()),
            Expr::Min(a, b) => Expr::Min(a.clone(), b.clone()),
            Expr::Max(a, b) => Expr::Max(a.clone(), b.clone()),
            Expr::Clamp(x, lo, hi) => Expr::Clamp(x.clone(), lo.clone(), hi.clone()),
            Expr::Abs(a) => Expr::Abs(a.clone()),
            Expr::Sin(a) => Expr::Sin(a.clone()),
            Expr::Cos(a) => Expr::Cos(a.clone()),
            Expr::Sqrt(a) => Expr::Sqrt(a.clone()),
            Expr::Atan2(y, x) => Expr::Atan2(y.clone(), x.clone()),
            Expr::Select(c, a, b) => Expr::Select(c.clone(), a.clone(), b.clone()),
        }
    }

    /// Minus the quantity.
    pub fn negated(self) -> (r: Expr)
        ensures
            r == e_neg(self),
    {
        Expr::Neg(Arc::new(self))
    }

    /// A sum.
    pub fn plus(self, other: Expr) -> (r: Expr)
        ensures
            r == e_add(self, other),
    {
        Expr::Add(Arc::new(self), Arc::new(other))
    }

    /// A difference.
    pub fn minus(self, other: Expr) -> (r: Expr)
        ensures
            r == e_sub(self, other),
    {
        Expr::Sub(Arc::new(self), Arc::new(other))
    }

    /// A product.
    pub fn times(self, other: Expr) -> (r: Expr)
        ensures
            r == e_mul(self, other),
    {
        Expr::Mul(Arc::new(self), Arc::new(other))
    }

    /// A quotient.
    pub fn over(self, other: Expr) -> (r: Expr)
        ensures
            r == e_div(self, other),
    {
        Expr::Div(Arc::new(self), Arc::new(other))
    }

    /// The smaller one.
    pub fn at_most(self, other: Expr) -> (r: Expr)
        ensures
            r == e_min(self, other),
    {
        Expr::Min(Arc::new(self), Arc::new(other))
    }

    /// The larger one.
    pub fn at_least(self, other: Expr) -> (r: Expr)
        ensures
            r == e_max(self, other),
    {
        Expr::Max(Arc::new(self), Arc::new(other))
    }

    /// The quantity, kept between two others.
    pub fn kept_between(self, lo: Expr, hi: Expr) -> (r: Expr)
        ensures
            r == e_clamp(self, lo, hi),
    {
        Expr::Clamp(Arc::new(self), Arc::new(lo), Arc::new(hi))
    }

    /// This many points, in pixels.
    pub fn in_px(self) -> (r: Expr)
        ensures
            r == e_px(self),
    {
        self.times(Expr::Var(Quantity::Dpi)).over(Expr::Ratio(72, 1))
    }

    /// One quantity where a condition holds, else another.
    pub fn select(c: Cond, a: Expr, b: Expr) -> (r: Expr)
        ensures
            r == e_select(c, a, b),
    {
        Expr::Select(Arc::new(c), Arc::new(a), Arc::new(b))
    }

    /// The angle of the point with `y` as its ordinate and `x` as its abscissa.
    pub fn angle_of(y: Expr, x: Expr) -> (r: Expr)
        ensures
            r == e_atan2(y, x),
    {
        Expr::Atan2(Arc::new(y), Arc::new(x))
    }

    /// How wide the panel is.
    pub fn panel_w() -> (r: Expr)
        ensures
            r == e_panel_w(),
    {
        Expr::Var(Quantity::PanelX1).minus(Expr::Var(Quantity::PanelX0))
    }

    /// How tall the panel is.
    pub fn panel_h() -> (r: Expr)
        ensures
            r == e_panel_h(),
    {
        Expr::Var(Quantity::PanelY1).minus(Expr::Var(Quantity::PanelY0))
    }

    /// The condition that the quantity is finite.
    pub fn is_finite(&self) -> (r: Cond)
        ensures
            r == c_finite(*self),
    {
        Cond::Finite(Arc::new(self.again()))
    }

    /// The condition that the quantity is above zero.
    pub fn is_positive(&self) -> (r: Cond)
        ensures
            r == c_positive(*self),
    {
        Cond::Gt(Arc::new(self.again()), Arc::new(Expr::Ratio(0, 1)))
    }

    /// The condition that the quantity is finite and above zero.
    pub fn is_finite_positive(&self) -> (r: Cond)
        ensures
            r == c_finite_positive(*self),
    {
        self.is_finite().and(self.is_positive())
    }
}

impl Cond {
    /// The panel is neither flat nor turned inside out.
    pub fn panel_open() -> (r: Cond)
        ensures
            r == c_panel_open(),
    {
        let wide = Cond::ge(Expr::Ratio(0, 1), Expr::panel_w()).negated();
        wide.and(Cond::ge(Expr::Ratio(0, 1), Expr::panel_h()).negated())
    }

    /// The same condition again.
    pub fn again(&self) -> (r: Cond)
        ensures
            r == *self,
    {
        match self {
            Cond::Always => Cond::Always,
            Cond::Finite(e) => Cond::Finite(e.clone()),
            Cond::Gt(a, b) => Cond::Gt(a.clone(), b.clone()),
            Cond::Ge(a, b) => Cond::Ge(a.clone(), b.clone()),
            Cond::Eq(a, b) => Cond::Eq(a.clone(), b.clone()),
            Cond::Not(a) => Cond::Not(a.clone()),
            Cond::And(a, b) => Cond::And(a.clone(), b.clone()),
            Cond::Or(a, b) => Cond::Or(a.clone(), b.clone()),
        }
    }

    /// Both conditions.
    pub fn and(self, other: Cond) -> (r: Cond)
        ensures
            r == c_and(self, other),
    {
        Cond::And(Arc::new(self), Arc::new(other))
    }

    /// Either condition.
    pub fn or(self, other: Cond) -> (r: Cond)
        ensures
            r == c_or(self, other),
    {
        Cond::Or(Arc::new(self), Arc::new(other))
    }

    /// The opposite condition.
    pub fn negated(self) -> (r: Cond)
        ensures
            r == c_not(self),
    {
        Cond::Not(Arc::new(self))
    }

    /// The first is larger.
    pub fn gt(a: Expr, b: Expr) -> (r: Cond)
        ensures
            r == c_gt(a, b),
    {
        Cond::Gt(Arc::new(a), Arc::new(b))
    }

    /// The first is no smaller.
    pub fn ge(a: Expr, b: Expr) -> (r: Cond)
        ensures
            r == c_ge(a, b),
    {
        Cond::Ge(Arc::new(a), Arc::new(b))
    }

    /// The two are equal.
    pub fn equal(a: Expr, b: Expr) -> (r: Cond)
        ensures
            r == c_eq(a, b),
    {
        Cond::Eq(Arc::new(a), Arc::new(b))
    }
}

/// Points turn into pixels at the painter's resolution: 72 points make an
/// inch.
pub proof fn points_in_pixels(e: Expr, env: Env)
    ensures
        value(e_px(e), env) == value(e, env) * (env.var)(Quantity::Dpi) / 72real,
{
    let m = e_mul(e, Expr::Var(Quantity::Dpi));
    assert(value(e_int(72), env) == 72real) by {
        assert(72real / 1real == 72real);
    }
    assert(value(m, env) == value(e, env) * (env.var)(Quantity::Dpi)) by {
        assert(value(Expr::Var(Quantity::Dpi), env) == (env.var)(Quantity::Dpi));
    }
}

/// `|e| < 1 / q`.
pub fn within(e: Expr, q: u64) -> (r: Cond)
    ensures
        r == c_within(e, q),
{
    Cond::gt(Expr::Ratio(1, q), Expr::Abs(Arc::new(e)))
}

} // verus!
